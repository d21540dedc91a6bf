use p256::ecdsa::signature::hazmat::PrehashSigner;
use p256::ecdsa::{Signature, SigningKey};
use ql_link_lab::ctaphid::CTAPHID_MSG;
use ql_link_lab::u2f::{
    ctaphid_init, parse_authentication, parse_registration, split_authentication,
    split_registration, u2f, u2f_apdu, u2f_await_presence, u2f_once, FidoError,
};

fn key() -> SigningKey {
    SigningKey::from_slice(&[7u8; 32]).unwrap()
}

fn public_key() -> Vec<u8> {
    key().verifying_key().to_encoded_point(false).as_bytes().to_vec()
}

fn signature() -> Vec<u8> {
    let s: Signature = key().sign_prehash(&[9u8; 32]).unwrap();
    s.to_der().as_bytes().to_vec()
}

fn registration(key: &[u8], key_handle: &[u8]) -> Vec<u8> {
    let mut r = vec![5];
    r.extend_from_slice(key);
    r.push(key_handle.len() as u8);
    r.extend_from_slice(key_handle);
    r.extend_from_slice(b"certificate and signature");
    r
}

#[test]
fn a_command_without_data() {
    assert_eq!(u2f_apdu(3, 0, &[]), vec![0, 3, 0, 0, 0, 0, 0, 0, 0]);
}

#[test]
fn a_command_carries_its_data_behind_its_length() {
    assert_eq!(
        u2f_apdu(2, 3, &[0xaa, 0xbb]),
        vec![0, 2, 3, 0, 0, 0, 2, 0xaa, 0xbb, 0, 0]
    );
    let a = u2f_apdu(1, 0, &[1; 300]);
    assert_eq!(&a[..7], &[0, 1, 0, 0, 0, 1, 44]);
    assert_eq!(&a[7..307], &[1; 300][..]);
    assert_eq!(a.len(), 309);
}

#[test]
fn a_length_keeps_sixteen_bits() {
    let a = u2f_apdu(1, 0, &vec![1; 65537]);
    assert_eq!(&a[5..7], &[0, 1]);
}

#[test]
fn a_reply_ends_with_its_status_word() {
    assert_eq!(
        u2f_once(CTAPHID_MSG, b"U2F_V2\x90\x00"),
        Ok((b"U2F_V2".to_vec(), 0x9000))
    );
    assert_eq!(u2f_once(CTAPHID_MSG, &[0x69, 0x85]), Ok((vec![], 0x6985)));
    assert_eq!(
        u2f_once(0x06, &[0x90, 0x00]),
        Err(FidoError::UnexpectedCommand(6))
    );
    assert_eq!(
        u2f_once(CTAPHID_MSG, &[0x90]),
        Err(FidoError::ResponseTooShort)
    );
}

#[test]
fn an_immediate_command_wants_success() {
    assert_eq!(u2f(CTAPHID_MSG, b"v\x90\x00"), Ok(b"v".to_vec()));
    assert_eq!(
        u2f(CTAPHID_MSG, &[0x69, 0x85]),
        Err(FidoError::Status(0x6985))
    );
    assert_eq!(
        u2f(CTAPHID_MSG, &[0x6d, 0x00]),
        Err(FidoError::Status(0x6d00))
    );
}

#[test]
fn a_gated_command_is_repeated_for_a_minute() {
    assert_eq!(
        u2f_await_presence(CTAPHID_MSG, &[1, 0x90, 0x00], 99_999),
        Ok(Some(vec![1]))
    );
    assert_eq!(
        u2f_await_presence(CTAPHID_MSG, &[0x69, 0x85], 0),
        Ok(None)
    );
    assert_eq!(
        u2f_await_presence(CTAPHID_MSG, &[0x69, 0x85], 59_999),
        Ok(None)
    );
    assert_eq!(
        u2f_await_presence(CTAPHID_MSG, &[0x69, 0x85], 60_000),
        Err(FidoError::PresenceTimeout)
    );
    assert_eq!(
        u2f_await_presence(CTAPHID_MSG, &[0x6a, 0x80], 0),
        Err(FidoError::Status(0x6a80))
    );
}

#[test]
fn the_channel_stands_behind_the_nonce() {
    let mut data = vec![0x42; 8];
    data.extend_from_slice(&[1, 2, 3, 4, 2, 0]);
    assert_eq!(ctaphid_init(&data), Ok(0x01020304));
    assert_eq!(ctaphid_init(&data[..12]), Ok(0x01020304));
    assert_eq!(ctaphid_init(&data[..11]), Err(FidoError::ShortInit));
}

#[test]
fn a_registration_is_read() {
    let reg = parse_registration(&registration(&public_key(), b"handle")).unwrap();
    assert_eq!(reg.public_key, public_key());
    assert_eq!(reg.key_handle, b"handle");
}

#[test]
fn a_registration_that_does_not_hold() {
    let good = registration(&public_key(), b"handle");
    let mut tag = good.clone();
    tag[0] = 4;
    assert!(matches!(
        parse_registration(&tag),
        Err(FidoError::MalformedRegistration)
    ));
    assert!(matches!(
        parse_registration(&good[..66]),
        Err(FidoError::MalformedRegistration)
    ));
    assert!(matches!(
        parse_registration(&[]),
        Err(FidoError::MalformedRegistration)
    ));
    assert!(matches!(
        parse_registration(&registration(&[4; 65], b"handle")),
        Err(FidoError::NotP256)
    ));
    assert!(matches!(
        parse_registration(&good[..72]),
        Err(FidoError::KeyHandleTruncated)
    ));
    assert!(parse_registration(&good[..73]).is_ok());
}

#[test]
fn a_registration_is_split_by_what_is_known_of_its_key() {
    let resp = registration(&[4; 65], b"handle");
    let reg = split_registration(&resp, true).unwrap();
    assert_eq!(reg.public_key, vec![4; 65]);
    assert!(matches!(
        split_registration(&resp, false),
        Err(FidoError::NotP256)
    ));
}

#[test]
fn an_authentication_is_read() {
    let mut resp = vec![1, 0, 0, 1, 2];
    resp.extend_from_slice(&signature());
    let auth = parse_authentication(&resp).unwrap();
    assert_eq!(auth.presence, 1);
    assert_eq!(auth.counter, 258);
    assert_eq!(auth.signature, signature());
}

#[test]
fn an_authentication_that_does_not_hold() {
    assert!(matches!(
        parse_authentication(&[1, 0, 0, 0, 1]),
        Err(FidoError::MalformedAuthentication)
    ));
    assert!(matches!(
        parse_authentication(&[1, 0, 0, 0, 1, 0x30]),
        Err(FidoError::NotDerSignature)
    ));
    assert_eq!(
        split_authentication(&[1, 0, 0, 0, 9, 0x30], true)
            .unwrap()
            .counter,
        9
    );
}

#[test]
fn failures_in_words() {
    let words = |e: FidoError| e.message();
    assert_eq!(
        words(FidoError::Hosted),
        "--hosted is not wired up yet (the sim has no HID transport)"
    );
    assert_eq!(words(FidoError::ShortInit), "short CTAPHID_INIT response");
    assert_eq!(
        words(FidoError::UnexpectedCommand(6)),
        "unexpected CTAPHID response cmd 06"
    );
    assert_eq!(words(FidoError::ResponseTooShort), "U2F response too short");
    assert_eq!(words(FidoError::Status(0x6d0f)), "U2F status word 6d0f");
    assert_eq!(
        words(FidoError::PresenceTimeout),
        "timed out waiting for user presence on the device"
    );
    assert_eq!(
        words(FidoError::MalformedRegistration),
        "malformed U2F registration response"
    );
    assert_eq!(words(FidoError::NotP256), "registration key is not P-256");
    assert_eq!(words(FidoError::KeyHandleTruncated), "key handle truncated");
    assert_eq!(
        words(FidoError::MalformedAuthentication),
        "malformed U2F authentication response"
    );
    assert_eq!(
        words(FidoError::NotDerSignature),
        "authentication signature is not DER ECDSA"
    );
    assert_eq!(
        words(FidoError::SignatureMismatch),
        "authentication signature does NOT verify against the registered key"
    );
}
