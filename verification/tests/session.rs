use ql_link_lab::session::{
    ble_config, echo_matches, echo_message, status_reached, Benchmark, BenchmarkRequest,
    BenchmarkStep, StreamEvent,
};

#[test]
fn the_timing_of_a_session() {
    let c = ble_config();
    assert_eq!(c.handshake_timeout_ms, 10_000);
    assert_eq!(c.session_record_retransmit_timeout_ms, 2_000);
    assert_eq!(c.session_keepalive_interval_ms, 0);
    assert_eq!(c.session_peer_timeout_ms, 0);
}

#[test]
fn a_benchmark_request_on_the_wire() {
    let mut out = vec![7];
    BenchmarkRequest { length: 256 * 1024 }.encode_value(&mut out);
    assert_eq!(out, vec![7, 0, 4, 0, 0]);
    let mut buf: &[u8] = &[0, 4, 0, 0, 9, 8];
    let r = BenchmarkRequest::decode_value(&mut buf).unwrap();
    assert_eq!(r.length, 256 * 1024);
    assert_eq!(buf, &[9, 8]);
}

#[test]
fn a_benchmark_request_reads_back_and_leaves_the_rest() {
    for length in [0, 1, 0x0102_0304, u32::MAX] {
        for rest in [&[][..], &[1, 2, 3, 4, 5][..]] {
            let mut bytes = Vec::new();
            BenchmarkRequest { length }.encode_value(&mut bytes);
            assert_eq!(bytes, length.to_be_bytes());
            bytes.extend_from_slice(rest);
            let mut buf = bytes.as_slice();
            assert_eq!(
                BenchmarkRequest::decode_value(&mut buf).unwrap().length,
                length
            );
            assert_eq!(buf, rest);
        }
    }
}

#[test]
fn an_echo_has_to_match() {
    assert_eq!(echo_message(), "hello from the backend over QL v2");
    assert!(echo_matches("a→b", "a→b"));
    assert!(!echo_matches("a", "a "));
}

#[test]
fn only_the_target_status_ends_the_wait() {
    assert!(status_reached("Connected", "Connected"));
    assert!(!status_reached("Initiator", "Connected"));
}

#[test]
fn a_benchmark_adds_up() {
    let mut b = Benchmark::new();
    assert_eq!(b.on_event(StreamEvent::Chunk(4096)), BenchmarkStep::Continue);
    assert_eq!(b.on_event(StreamEvent::Chunk(4)), BenchmarkStep::Continue);
    assert_eq!(
        b.on_event(StreamEvent::Error),
        BenchmarkStep::Failed { received: 4100 }
    );
    assert_eq!(
        b.on_event(StreamEvent::End),
        BenchmarkStep::Done { received: 4100 }
    );
}
