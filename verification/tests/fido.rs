use p256::ecdsa::signature::hazmat::PrehashSigner;
use p256::ecdsa::{Signature, SigningKey};
use ql_link_lab::ctaphid::{BROADCAST_CID, CTAPHID_INIT, CTAPHID_MSG};
use ql_link_lab::fido::{
    check_authentication, is_fido_interface, judge, Action, Args, Ceremony, Note,
};
use ql_link_lab::u2f::{u2f_apdu, FidoError};
use sha2::{Digest, Sha256};

/// A device with one key.
struct Device {
    key: SigningKey,
    counter: u32,
}

fn challenge() -> Vec<u8> {
    (0..32u8).map(|i| i.wrapping_mul(13).wrapping_add(1)).collect()
}

fn app_id() -> Vec<u8> {
    Sha256::digest(b"https://foundation.xyz").to_vec()
}

fn granted(answer: &[u8]) -> Vec<u8> {
    let mut r = answer.to_vec();
    r.extend_from_slice(&[0x90, 0x00]);
    r
}

impl Device {
    fn new(seed: u8) -> Device {
        Device {
            key: SigningKey::from_slice(&[seed; 32]).unwrap(),
            counter: 0x0102_0304,
        }
    }

    fn public_key(&self) -> Vec<u8> {
        self.key
            .verifying_key()
            .to_encoded_point(false)
            .as_bytes()
            .to_vec()
    }

    fn allocation(&self) -> Vec<u8> {
        let mut r = vec![0x42; 8];
        r.extend_from_slice(&[0, 0, 0, 9, 2, 1, 2, 3, 4]);
        r
    }

    fn registration(&self) -> Vec<u8> {
        let mut r = vec![5];
        r.extend_from_slice(&self.public_key());
        r.push(3);
        r.extend_from_slice(b"k-h");
        r.extend_from_slice(b"rest");
        r
    }

    fn authentication(&self) -> Vec<u8> {
        let mut signed = app_id();
        signed.push(1);
        signed.extend_from_slice(&self.counter.to_be_bytes());
        signed.extend_from_slice(&challenge());
        let digest = Sha256::digest(&signed);
        let signature: Signature = self.key.sign_prehash(&digest).unwrap();
        let mut r = vec![1];
        r.extend_from_slice(&self.counter.to_be_bytes());
        r.extend_from_slice(signature.to_der().as_bytes());
        r
    }
}

fn started() -> Ceremony {
    Ceremony::start(Args { hosted: false }).unwrap().0
}

/// A run that waits for the authentication of `device`.
fn authenticating(device: &Device) -> Ceremony {
    let mut c = started();
    c.advance(CTAPHID_INIT, &device.allocation(), 0).unwrap();
    c.advance(CTAPHID_MSG, &granted(b"U2F_V2"), 0).unwrap();
    c.advance(CTAPHID_MSG, &granted(&device.registration()), 0)
        .unwrap();
    c
}

#[test]
fn the_simulator_cannot_be_driven() {
    assert!(matches!(
        Ceremony::start(Args { hosted: true }),
        Err(FidoError::Hosted)
    ));
}

#[test]
fn an_honest_device_goes_through() {
    let device = Device::new(7);
    let (mut c, action) = Ceremony::start(Args { hosted: false }).unwrap();
    assert_eq!(
        action,
        Action::Exchange {
            note: Note::Nothing,
            cid: BROADCAST_CID,
            cmd: CTAPHID_INIT,
            payload: vec![0x42; 8]
        }
    );
    assert_eq!(
        c.advance(CTAPHID_INIT, &device.allocation(), 0),
        Ok(Action::Exchange {
            note: Note::Nothing,
            cid: 9,
            cmd: CTAPHID_MSG,
            payload: u2f_apdu(3, 0, &[])
        })
    );
    let mut data = challenge();
    data.extend_from_slice(&app_id());
    assert_eq!(
        c.advance(CTAPHID_MSG, &granted(b"U2F_V2"), 0),
        Ok(Action::Exchange {
            note: Note::Version(b"U2F_V2".to_vec()),
            cid: 9,
            cmd: CTAPHID_MSG,
            payload: u2f_apdu(1, 0, &data)
        })
    );
    assert_eq!(
        c.advance(CTAPHID_MSG, &[0x69, 0x85], 200),
        Ok(Action::Again)
    );
    data.push(3);
    data.extend_from_slice(b"k-h");
    assert_eq!(
        c.advance(CTAPHID_MSG, &granted(&device.registration()), 400),
        Ok(Action::Exchange {
            note: Note::KeyHandle(3),
            cid: 9,
            cmd: CTAPHID_MSG,
            payload: u2f_apdu(2, 3, &data)
        })
    );
    assert_eq!(
        c.advance(CTAPHID_MSG, &[0x69, 0x85], 59_999),
        Ok(Action::Again)
    );
    assert_eq!(
        c.advance(CTAPHID_MSG, &granted(&device.authentication()), 60_500),
        Ok(Action::Passed {
            counter: 0x0102_0304
        })
    );
}

#[test]
fn another_key_does_not_pass() {
    let mut c = authenticating(&Device::new(7));
    let other = granted(&Device::new(8).authentication());
    assert_eq!(
        c.advance(CTAPHID_MSG, &other, 0),
        Err(FidoError::SignatureMismatch)
    );
}

#[test]
fn a_changed_counter_does_not_pass() {
    let device = Device::new(7);
    let mut answer = device.authentication();
    answer[4] ^= 1;
    assert_eq!(
        authenticating(&device).advance(CTAPHID_MSG, &granted(&answer), 0),
        Err(FidoError::SignatureMismatch)
    );
    let mut answer = device.authentication();
    answer[0] = 0;
    assert_eq!(
        authenticating(&device).advance(CTAPHID_MSG, &granted(&answer), 0),
        Err(FidoError::SignatureMismatch)
    );
}

#[test]
fn a_failure_leaves_the_run_where_it_stood() {
    let device = Device::new(7);
    let mut c = authenticating(&device);
    assert_eq!(
        c.advance(CTAPHID_MSG, &granted(&[1, 0, 0]), 0),
        Err(FidoError::MalformedAuthentication)
    );
    assert_eq!(
        c.advance(CTAPHID_MSG, &[0x69, 0x85], 60_000),
        Err(FidoError::PresenceTimeout)
    );
    assert_eq!(
        c.advance(CTAPHID_MSG, &granted(&device.authentication()), 0),
        Ok(Action::Passed {
            counter: 0x0102_0304
        })
    );
}

#[test]
fn failures_at_every_stage() {
    let device = Device::new(7);
    assert_eq!(
        started().advance(CTAPHID_INIT, &[0x42; 8], 0),
        Err(FidoError::ShortInit)
    );
    let mut c = started();
    c.advance(CTAPHID_INIT, &device.allocation(), 0).unwrap();
    assert_eq!(
        c.advance(CTAPHID_MSG, &[0x69, 0x85], 0),
        Err(FidoError::Status(0x6985))
    );
    assert_eq!(
        c.advance(CTAPHID_INIT, &[0x90, 0x00], 0),
        Err(FidoError::UnexpectedCommand(CTAPHID_INIT))
    );
    c.advance(CTAPHID_MSG, &granted(b"U2F_V2"), 0).unwrap();
    assert_eq!(
        c.advance(CTAPHID_MSG, &granted(&device.registration()[..69]), 0),
        Err(FidoError::KeyHandleTruncated)
    );
    assert_eq!(
        c.advance(CTAPHID_MSG, &[0x67, 0x00], 0),
        Err(FidoError::Status(0x6700))
    );
}

#[test]
fn a_signature_is_checked_against_a_key() {
    let device = Device::new(7);
    assert_eq!(
        check_authentication(&device.public_key(), &device.authentication()),
        Ok(0x0102_0304)
    );
    assert_eq!(
        check_authentication(&Device::new(8).public_key(), &device.authentication()),
        Err(FidoError::SignatureMismatch)
    );
    assert_eq!(
        check_authentication(&[0; 65], &device.authentication()),
        Err(FidoError::SignatureMismatch)
    );
    assert_eq!(
        check_authentication(&device.public_key(), &[1, 0, 0, 0, 1, 0x30]),
        Err(FidoError::NotDerSignature)
    );
}

#[test]
fn a_verdict_follows_what_is_known_of_the_signature() {
    let answer = [1, 0, 0, 0, 7, 0x30];
    assert_eq!(judge(&answer, true, true), Ok(7));
    assert_eq!(
        judge(&answer, true, false),
        Err(FidoError::SignatureMismatch)
    );
    assert_eq!(judge(&answer, false, true), Err(FidoError::NotDerSignature));
    assert_eq!(
        judge(&answer[..5], true, true),
        Err(FidoError::MalformedAuthentication)
    );
}

#[test]
fn the_fido_interface_is_told_by_vendor_and_usage() {
    assert!(is_fido_interface(0x1307, 0xf1d0));
    assert!(!is_fido_interface(0x1307, 0x0001));
    assert!(!is_fido_interface(0x1050, 0xf1d0));
}

#[test]
fn a_passed_run_stays_passed() {
    let device = Device::new(7);
    let mut c = authenticating(&device);
    let passed = c.advance(CTAPHID_MSG, &granted(&device.authentication()), 0);
    assert_eq!(
        passed,
        Ok(Action::Passed {
            counter: 0x0102_0304
        })
    );
    assert_eq!(c.advance(CTAPHID_MSG, &[0x67, 0x00], 0), passed);
}
