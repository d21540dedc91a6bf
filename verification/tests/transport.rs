use ql_link_lab::transport::{frame_chunk, Decoded, Inbound, Outbound, Transport};

/// Reads a whole stream; the bytes that complete nothing are left over.
fn read_all(stream: &[u8]) -> (Vec<Vec<u8>>, usize) {
    let mut t = Transport::new();
    let mut chunks = Vec::new();
    let mut rest = stream;
    loop {
        let n = t.wanted();
        if rest.len() < n {
            return (chunks, rest.len());
        }
        if let Some(c) = t.accept(&rest[..n]) {
            chunks.push(c);
            if rest.len() == n {
                return (chunks, 0);
            }
        }
        rest = &rest[n..];
    }
}

#[test]
fn a_chunk_travels_behind_its_length() {
    assert_eq!(frame_chunk(&[]), vec![0, 0, 0, 0]);
    assert_eq!(frame_chunk(b"abc"), vec![0, 0, 0, 3, b'a', b'b', b'c']);
    assert_eq!(&frame_chunk(&[7; 258])[..5], &[0, 0, 1, 2, 7]);
}

#[test]
fn chunks_are_framed_in_order() {
    let frames = Transport::send_envelope(&vec![vec![1], vec![], vec![2, 3]]);
    assert_eq!(
        frames,
        vec![
            vec![0, 0, 0, 1, 1],
            vec![0, 0, 0, 0],
            vec![0, 0, 0, 2, 2, 3]
        ]
    );
}

#[test]
fn what_is_written_is_read() {
    let chunks = vec![vec![1; 5], vec![], vec![2; 300], vec![3]];
    let wire: Vec<u8> = Transport::send_envelope(&chunks).concat();
    assert_eq!(read_all(&wire), (chunks, 0));
}

#[test]
fn a_cut_frame_brings_nothing() {
    let wire: Vec<u8> = Transport::send_envelope(&vec![vec![1; 5], vec![2; 5]]).concat();
    for cut in 10..18 {
        assert_eq!(read_all(&wire[..cut]).0, vec![vec![1; 5]]);
    }
}

#[test]
fn four_bytes_are_read_first() {
    let mut t = Transport::new();
    assert_eq!(t.wanted(), 4);
    assert_eq!(t.accept(&[0, 0, 1, 0]), None);
    assert_eq!(t.wanted(), 256);
    assert_eq!(t.accept(&[9; 256]), Some(vec![9; 256]));
    assert_eq!(t.wanted(), 4);
}

#[test]
fn received_frames_are_counted() {
    let mut x = Inbound::new();
    assert_eq!(x.on_frame(Decoded::Bad), None);
    assert_eq!(x.on_frame(Decoded::Partial), None);
    assert_eq!(x.on_frame(Decoded::Record(vec![1, 2])), Some(vec![1, 2]));
    assert_eq!(
        (x.frames(), x.decoded(), x.errs(), x.records()),
        (3, 2, 1, 1)
    );
}

#[test]
fn an_envelope_comes_out_when_it_is_complete() {
    assert_eq!(Transport::recv_envelope(Decoded::Bad), None);
    assert_eq!(Transport::recv_envelope(Decoded::Partial), None);
    assert_eq!(
        Transport::recv_envelope(Decoded::Record(vec![4])),
        Some(vec![4])
    );
}

#[test]
fn sent_frames_are_counted() {
    let mut x = Outbound::new();
    assert_eq!(
        x.on_record(&vec![vec![1], vec![2]]),
        vec![vec![0, 0, 0, 1, 1], vec![0, 0, 0, 1, 2]]
    );
    assert_eq!(x.on_record(&vec![]).len(), 0);
    assert_eq!((x.records(), x.frames()), (2, 2));
}

/// Joins chunks of the form `[last?, bytes..]`; an empty chunk cannot be decoded.
fn join(chunks: &[Vec<u8>]) -> Vec<Vec<u8>> {
    let mut gathered = Vec::new();
    let mut envelopes = Vec::new();
    for chunk in chunks {
        let outcome = match chunk.split_first() {
            None => Decoded::Bad,
            Some((last, bytes)) => {
                gathered.extend_from_slice(bytes);
                if *last == 1 {
                    Decoded::Record(std::mem::take(&mut gathered))
                } else {
                    Decoded::Partial
                }
            }
        };
        envelopes.extend(Transport::recv_envelope(outcome));
    }
    envelopes
}

#[test]
fn envelopes_come_back_whole_and_in_order() {
    let bad = vec![];
    let written = vec![
        bad.clone(),
        vec![0, 10],
        bad.clone(),
        vec![1, 11],
        vec![0, 20],
        bad.clone(),
        vec![0, 21],
        vec![1, 22],
        bad,
    ];
    let both = vec![vec![10, 11], vec![20, 21, 22]];
    let mut wire: Vec<u8> = Transport::send_envelope(&written).concat();
    assert_eq!(join(&read_all(&wire).0), both);
    // A stream that ends inside a further frame brings no more.
    wire.extend_from_slice(&[0, 0, 0, 2, 1]);
    assert_eq!(join(&read_all(&wire).0), both);
    for m in 0..=written.len() {
        assert!(both.starts_with(&join(&written[..m])));
    }
}

#[test]
fn whole_frames_come_in_before_a_cut_one() {
    let chunks = vec![vec![1; 3], vec![], vec![2; 4]];
    let wire: Vec<u8> = Transport::send_envelope(&chunks).concat();
    for cut in 0..4 {
        let mut stream = wire.clone();
        stream.extend_from_slice(&frame_chunk(&[9; 2])[..cut]);
        assert_eq!(read_all(&stream).0, chunks);
    }
}
