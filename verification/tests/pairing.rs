use ql_link_lab::pairing::{device_xid_bytes, parse_token, read_token, HexError, TokenError};

#[test]
fn a_bare_token() {
    assert_eq!(read_token("01aF", 2), Ok(vec![0x01, 0xaf]));
    assert_eq!(read_token("", 0), Ok(vec![]));
}

#[test]
fn a_whole_pairing_code() {
    assert_eq!(
        read_token("12:34:56:78:9A:BC:01a094fe", 4),
        Ok(vec![0x01, 0xa0, 0x94, 0xfe])
    );
    assert_eq!(
        read_token("12:34:56:78:9A:BC:01a094fe", 4),
        read_token("01a094fe", 4)
    );
}

#[test]
fn white_space_around_a_token() {
    assert_eq!(read_token(" \t00ff\r\n", 2), Ok(vec![0, 255]));
    assert_eq!(read_token("AA: \u{3000}00ff\u{a0}", 2), Ok(vec![0, 255]));
    // White space in front of the last colon does not matter, white space inside does.
    assert_eq!(read_token("a b:00", 1), Ok(vec![0]));
    assert_eq!(
        read_token("00 0", 2),
        Err(TokenError::NotHex(HexError::InvalidHexCharacter {
            c: ' ',
            index: 2
        }))
    );
}

#[test]
fn a_token_of_another_size() {
    assert_eq!(
        read_token("0102", 3),
        Err(TokenError::WrongSize {
            expected: 3,
            got: 2
        })
    );
    assert_eq!(
        read_token("01:", 3),
        Err(TokenError::WrongSize {
            expected: 3,
            got: 0
        })
    );
}

#[test]
fn a_token_that_is_not_hexadecimal() {
    assert_eq!(
        read_token("0g", 1),
        Err(TokenError::NotHex(HexError::InvalidHexCharacter {
            c: 'g',
            index: 1
        }))
    );
    assert_eq!(
        read_token("gz", 1),
        Err(TokenError::NotHex(HexError::InvalidHexCharacter {
            c: 'g',
            index: 0
        }))
    );
    assert_eq!(
        read_token("012", 1),
        Err(TokenError::NotHex(HexError::OddLength))
    );
    // An odd length is told first.
    assert_eq!(
        read_token("zz0", 1),
        Err(TokenError::NotHex(HexError::OddLength))
    );
    // Characters are looked at byte by byte.
    assert_eq!(
        read_token("é", 1),
        Err(TokenError::NotHex(HexError::InvalidHexCharacter {
            c: 'Ã',
            index: 0
        }))
    );
}

#[test]
fn every_byte_reads_back() {
    let bytes: Vec<u8> = (0..=255).collect();
    assert_eq!(read_token(&hex::encode(&bytes), 256), Ok(bytes.clone()));
    assert_eq!(device_xid_bytes(&hex::encode_upper(&bytes)), Ok(bytes));
}

#[test]
fn a_device_identity() {
    assert_eq!(device_xid_bytes("d8c80a\n"), Ok(vec![0xd8, 0xc8, 0x0a]));
    assert_eq!(device_xid_bytes("d8c"), Err(HexError::OddLength));
    // A colon is no separator here.
    assert_eq!(
        device_xid_bytes("d8:c"),
        Err(HexError::InvalidHexCharacter { c: ':', index: 2 })
    );
}

#[test]
fn a_written_token_parses() {
    let token: Vec<u8> = (200..232).collect();
    let text = hex::encode(&token);
    assert_eq!(parse_token(&text, 32), token);
    assert_eq!(parse_token(&format!("12:34:{text}"), 32), token);
    assert_eq!(parse_token(" 00ff ", 2), vec![0, 255]);
}
