use ql_link_lab::ctaphid::{
    fragment, output_report, Exchange, ExchangeError, Progress, CTAPHID_ERROR, CTAPHID_KEEPALIVE,
    CTAPHID_MSG, MAX_FRAGMENTED, MAX_MESSAGE,
};

fn counting(n: usize) -> Vec<u8> {
    (0..n).map(|i| (i % 251) as u8).collect()
}

/// Feeds all reports; every one but the last has to leave the exchange open.
fn feed(x: &mut Exchange, reports: &[[u8; 64]]) -> Progress {
    for r in &reports[..reports.len() - 1] {
        assert!(matches!(x.accept(r), Progress::More));
    }
    x.accept(&reports[reports.len() - 1])
}

#[test]
fn an_empty_payload_takes_one_report() {
    let reports = fragment(0x01020304, CTAPHID_MSG, &[]);
    assert_eq!(reports.len(), 1);
    let mut expected = [0u8; 64];
    expected[..7].copy_from_slice(&[1, 2, 3, 4, 0x83, 0, 0]);
    assert_eq!(reports[0], expected);
}

#[test]
fn the_first_report_takes_fifty_seven_bytes() {
    assert_eq!(fragment(1, 3, &counting(57)).len(), 1);
    let reports = fragment(1, 3, &counting(58));
    assert_eq!(reports.len(), 2);
    assert_eq!(&reports[0][..8], &[0, 0, 0, 1, 0x83, 0, 58, 0]);
    assert_eq!(&reports[1][..7], &[0, 0, 0, 1, 0, 57, 0]);
}

#[test]
fn continuations_are_numbered_from_zero() {
    let payload = counting(57 + 59 + 1);
    let reports = fragment(0xffff_ffff, 6, &payload);
    assert_eq!(reports.len(), 3);
    assert_eq!(&reports[0][..7], &[0xff, 0xff, 0xff, 0xff, 0x86, 0, 117]);
    assert_eq!(reports[1][4], 0);
    assert_eq!(&reports[1][5..], &payload[57..116]);
    assert_eq!(reports[2][4], 1);
    assert_eq!(reports[2][5], payload[116]);
    assert!(reports[2][6..].iter().all(|b| *b == 0));
}

#[test]
fn the_longest_payload_that_can_be_numbered() {
    let reports = fragment(1, 3, &counting(MAX_FRAGMENTED));
    assert_eq!(reports.len(), 256);
    assert_eq!(reports[255][4], 254);
    assert_eq!(&reports[0][5..7], &[0x3a, 0xfe]);
}

#[test]
fn fragments_come_together_again() {
    for n in [0, 1, 56, 57, 58, 116, 117, 1000, MAX_MESSAGE] {
        let payload = counting(n);
        let mut x = Exchange::new();
        match feed(&mut x, &fragment(7, CTAPHID_MSG, &payload)) {
            Progress::Reply { cmd, data } => {
                assert_eq!(cmd, CTAPHID_MSG);
                assert_eq!(data, payload);
            }
            other => panic!("{n}: {other:?}"),
        }
    }
}

#[test]
fn one_byte_more_than_the_longest_message_does_not_come_together() {
    let reports = fragment(7, CTAPHID_MSG, &counting(MAX_MESSAGE + 1));
    let mut x = Exchange::new();
    for r in &reports[..129] {
        assert!(matches!(x.accept(r), Progress::More));
    }
    // The last report's number has the top bit of an initialization report.
    assert!(!matches!(
        x.accept(&reports[129]),
        Progress::Reply { cmd: CTAPHID_MSG, .. }
    ));
}

#[test]
fn keepalives_are_passed_over() {
    let mut x = Exchange::new();
    for _ in 0..3 {
        assert!(matches!(
            feed(&mut x, &fragment(7, CTAPHID_KEEPALIVE, &[2])),
            Progress::More
        ));
    }
    match feed(&mut x, &fragment(7, CTAPHID_MSG, b"reply")) {
        Progress::Reply { data, .. } => assert_eq!(data, b"reply"),
        other => panic!("{other:?}"),
    }
}

#[test]
fn an_error_message_ends_the_exchange() {
    let mut x = Exchange::new();
    match feed(&mut x, &fragment(7, CTAPHID_ERROR, &[0x06, 0xab])) {
        Progress::Failed(e) => {
            assert!(matches!(&e, ExchangeError::Device(data) if data == &[0x06, 0xab]));
            assert_eq!(e.message(), "CTAPHID error: [06, ab]");
        }
        other => panic!("{other:?}"),
    }
}

#[test]
fn errors_in_words() {
    assert_eq!(ExchangeError::Timeout.message(), "CTAPHID read timeout");
    assert_eq!(ExchangeError::TooShort.message(), "CTAPHID report too short");
    assert_eq!(
        ExchangeError::OutOfSequence.message(),
        "CTAPHID sequence mismatch"
    );
    assert_eq!(
        ExchangeError::Device(vec![]).message(),
        format!("CTAPHID error: {:02x?}", Vec::<u8>::new())
    );
    assert_eq!(
        ExchangeError::Device(vec![0, 15, 255]).message(),
        format!("CTAPHID error: {:02x?}", vec![0u8, 15, 255])
    );
}

#[test]
fn reads_that_bring_no_report() {
    let mut x = Exchange::new();
    assert!(matches!(
        x.accept(&[]),
        Progress::Failed(ExchangeError::Timeout)
    ));
    assert!(matches!(
        x.accept(&[0, 0, 0, 1]),
        Progress::Failed(ExchangeError::TooShort)
    ));
}

#[test]
fn a_number_out_of_turn_is_refused() {
    let reports = fragment(7, CTAPHID_MSG, &counting(200));
    let mut x = Exchange::new();
    assert!(matches!(x.accept(&reports[0]), Progress::More));
    assert!(matches!(
        x.accept(&reports[2]),
        Progress::Failed(ExchangeError::OutOfSequence)
    ));
}

#[test]
fn an_initialization_report_starts_over() {
    let mut x = Exchange::new();
    let first = fragment(7, CTAPHID_MSG, &counting(200));
    assert!(matches!(x.accept(&first[0]), Progress::More));
    assert!(matches!(x.accept(&first[1]), Progress::More));
    match feed(&mut x, &fragment(7, CTAPHID_MSG, b"again")) {
        Progress::Reply { data, .. } => assert_eq!(data, b"again"),
        other => panic!("{other:?}"),
    }
}

#[test]
fn a_short_report_brings_what_it_holds() {
    let mut x = Exchange::new();
    assert!(matches!(
        x.accept(&[0, 0, 0, 1, 0x83, 0, 3, 10]),
        Progress::More
    ));
    match x.accept(&[0, 0, 0, 1, 0, 11, 12, 13]) {
        Progress::Reply { cmd, data } => {
            assert_eq!(cmd, 3);
            assert_eq!(data, vec![10, 11, 12]);
        }
        other => panic!("{other:?}"),
    }
}

#[test]
fn an_output_report_stands_behind_its_number() {
    let reports = fragment(7, CTAPHID_MSG, b"x");
    let out = output_report(&reports[0]);
    assert_eq!(out.len(), 65);
    assert_eq!(out[0], 0);
    assert_eq!(&out[1..], &reports[0][..]);
}

#[test]
fn a_keepalive_leaves_no_trace_on_what_follows() {
    let start_of = |x: &mut Exchange| {
        let reports = fragment(7, CTAPHID_MSG, &counting(200));
        format!("{:?} {:?}", x.accept(&reports[0]), x.accept(&reports[2]))
    };
    let mut plain = Exchange::new();
    let mut waited = Exchange::new();
    feed(&mut waited, &fragment(7, CTAPHID_KEEPALIVE, &counting(100)));
    assert_eq!(start_of(&mut plain), start_of(&mut waited));
    assert_eq!(format!("{plain:?}"), format!("{waited:?}"));
}
