//! U2F messages: commands, replies, and what registration and authentication answers say.

use crate::bytes::{
    be16, from_be16, from_be32, put, read_be16, read_be32, read_bytes_weigh_less_and_less, to_be16,
    written_bytes_weigh_less_and_less,
};
use crate::crypto::{is_p256_key, is_p256_signature, p256_key, p256_signature};
use crate::ctaphid::CTAPHID_MSG;
use crate::pairing::seen;
use crate::text::{
    hex, hex_digits, hexadecimal_digits_spell_their_number, in_base, join, spelled,
};
use vstd::arithmetic::power::pow;
use vstd::prelude::*;
use vstd::slice::slice_subrange;

verus! {

/// How long the user may take to confirm presence.
pub const PRESENCE_TIMEOUT_MS: u64 = 60_000;

/// Status word of a command that succeeded.
pub const SW_OK: u16 = 0x9000;

/// Status word of a command that waits for the user.
pub const SW_PRESENCE: u16 = 0x6985;

/// Why the exercise failed.
#[derive(Debug, Clone, Copy, PartialEq, Eq, Structural)]
pub enum FidoError {
    /// The simulator was asked for.
    Hosted,
    /// The channel allocation was answered without a channel.
    ShortInit,
    /// The reply carries this command in place of a U2F message.
    UnexpectedCommand(u8),
    /// The reply has no status word.
    ResponseTooShort,
    /// The device refused the command with this status word.
    Status(u16),
    /// The user did not confirm presence in time.
    PresenceTimeout,
    /// The registration reply does not have the layout of one.
    MalformedRegistration,
    /// The registered key is no P-256 key.
    NotP256,
    /// The registration reply ends inside the key handle.
    KeyHandleTruncated,
    /// The authentication reply does not have the layout of one.
    MalformedAuthentication,
    /// The authentication signature is not an ECDSA signature in DER.
    NotDerSignature,
    /// The authentication signature is not one of the registered key.
    SignatureMismatch,
}

/// An extended-length U2F command: class, instruction, two parameters, the length of the data
/// in three bytes of which the first is zero, the data, and room for any answer.
pub open spec fn apdu(ins: u8, p1: u8, data: Seq<u8>) -> Seq<u8> {
    seq![0u8, ins, p1, 0u8, 0u8] + be16(data.len() as int) + data + seq![0u8, 0u8]
}

/// Extended-length U2F command APDU (CLA=00, the U2F encoding).
pub fn u2f_apdu(ins: u8, p1: u8, data: &[u8]) -> (a: Vec<u8>)
    ensures
        a@ == apdu(ins, p1, data@),
{
    let mut a: Vec<u8> = Vec::new();
    a.push(0x00);
    a.push(ins);
    a.push(p1);
    a.push(0x00);
    a.push(0x00);
    let len: usize = data.len();
    let short: u16 = (len % 65536) as u16;
    let size: [u8; 2] = to_be16(short);
    assert(be16(short as int) =~= be16(len as int)) by {
        assert((len as int % 65536) / 256 % 256 == len as int / 256 % 256);
        assert((len as int % 65536) % 256 == len as int % 256);
    }
    put(&mut a, size.as_slice());
    put(&mut a, data);
    a.push(0x00);
    a.push(0x00);
    assert(a@ =~= apdu(ins, p1, data@));
    a
}

/// A command's data can be read back from it.
pub proof fn apdu_reads_back(ins: u8, p1: u8, data: Seq<u8>)
    requires
        data.len() < 65536,
    ensures
        from_be16(apdu(ins, p1, data).skip(5)) == data.len(),
        apdu(ins, p1, data).subrange(7, 7 + from_be16(apdu(ins, p1, data).skip(5))) == data,
        apdu(ins, p1, data).len() == data.len() + 9,
        apdu(ins, p1, data)[1] == ins,
        apdu(ins, p1, data)[2] == p1,
{
    let a = apdu(ins, p1, data);
    crate::bytes::be16_reads_back(data.len() as int);
    assert(a.skip(5)[0] == be16(data.len() as int)[0]);
    assert(a.skip(5)[1] == be16(data.len() as int)[1]);
    assert(a.subrange(7, 7 + data.len() as int) =~= data);
}

/// What a reply to a U2F command holds: the answer, and the status word in its last two bytes.
pub open spec fn response(cmd: u8, data: Seq<u8>) -> Result<(Seq<u8>, u16), FidoError> {
    if cmd != CTAPHID_MSG {
        Err(FidoError::UnexpectedCommand(cmd))
    } else if data.len() < 2 {
        Err(FidoError::ResponseTooShort)
    } else {
        Ok((data.take(data.len() - 2), from_be16(data.skip(data.len() - 2)) as u16))
    }
}

/// The answer in the reply to a U2F command that needs no confirmation.
pub open spec fn immediate(cmd: u8, data: Seq<u8>) -> Result<Seq<u8>, FidoError> {
    match response(cmd, data) {
        Err(e) => Err(e),
        Ok((answer, sw)) => if sw == SW_OK {
            Ok(answer)
        } else {
            Err(FidoError::Status(sw))
        },
    }
}

/// The answer in the reply to a U2F command that the user has to confirm; `None` where the
/// command has to be sent again.
pub open spec fn confirmed(cmd: u8, data: Seq<u8>, waited_ms: u64) -> Result<
    Option<Seq<u8>>,
    FidoError,
> {
    match response(cmd, data) {
        Err(e) => Err(e),
        Ok((answer, sw)) => if sw == SW_OK {
            Ok(Some(answer))
        } else if sw != SW_PRESENCE {
            Err(FidoError::Status(sw))
        } else if waited_ms < PRESENCE_TIMEOUT_MS {
            Ok(None)
        } else {
            Err(FidoError::PresenceTimeout)
        },
    }
}

/// An answer and a status word, the answer as a sequence.
pub open spec fn parted(r: Result<(Vec<u8>, u16), FidoError>) -> Result<
    (Seq<u8>, u16),
    FidoError,
> {
    match r {
        Ok((answer, sw)) => Ok((answer@, sw)),
        Err(e) => Err(e),
    }
}

/// An answer, if there is one, as a sequence.
pub open spec fn seen_if_any(r: Result<Option<Vec<u8>>, FidoError>) -> Result<
    Option<Seq<u8>>,
    FidoError,
> {
    match r {
        Ok(Some(answer)) => Ok(Some(answer@)),
        Ok(None) => Ok(None),
        Err(e) => Err(e),
    }
}

/// Parts a reply to a U2F command into its answer and its status word.
pub fn u2f_once(cmd: u8, data: &[u8]) -> (r: Result<(Vec<u8>, u16), FidoError>)
    ensures
        parted(r) == response(cmd, data@),
{
    if cmd != CTAPHID_MSG {
        return Err(FidoError::UnexpectedCommand(cmd));
    }
    let len: usize = data.len();
    if len < 2 {
        return Err(FidoError::ResponseTooShort);
    }
    let sw: u16 = read_be16(data[len - 2], data[len - 1]);
    let mut answer: Vec<u8> = Vec::new();
    put(&mut answer, slice_subrange(data, 0, len - 2));
    assert(answer@ =~= data@.take(len - 2));
    Ok((answer, sw))
}

/// A U2F command that succeeds at once: the answer, unless the status word is another than 9000.
pub fn u2f(cmd: u8, data: &[u8]) -> (r: Result<Vec<u8>, FidoError>)
    ensures
        seen(r) == immediate(cmd, data@),
{
    match u2f_once(cmd, data) {
        Err(e) => Err(e),
        Ok((answer, sw)) => if sw != SW_OK {
            Err(FidoError::Status(sw))
        } else {
            Ok(answer)
        },
    }
}

/// A U2F command gated on user presence: the device returns 6985 until the user confirms on
/// screen, so the command is repeated until 9000 comes or the prompt has waited too long.
pub fn u2f_await_presence(cmd: u8, data: &[u8], waited_ms: u64) -> (r: Result<
    Option<Vec<u8>>,
    FidoError,
>)
    ensures
        seen_if_any(r) == confirmed(cmd, data@, waited_ms),
{
    match u2f_once(cmd, data) {
        Err(e) => Err(e),
        Ok((answer, sw)) => if sw == SW_OK {
            Ok(Some(answer))
        } else if sw != SW_PRESENCE {
            Err(FidoError::Status(sw))
        } else if waited_ms < PRESENCE_TIMEOUT_MS {
            Ok(None)
        } else {
            Err(FidoError::PresenceTimeout)
        },
    }
}

/// The channel in the answer to a channel allocation: after a nonce of eight bytes.
pub open spec fn allocated(data: Seq<u8>) -> Result<u32, FidoError> {
    if data.len() < 12 {
        Err(FidoError::ShortInit)
    } else {
        Ok(from_be32(data.skip(8)) as u32)
    }
}

/// The channel that the device allocated.
pub fn ctaphid_init(data: &[u8]) -> (r: Result<u32, FidoError>)
    ensures
        r == allocated(data@),
{
    if data.len() < 12 {
        Err(FidoError::ShortInit)
    } else {
        let cid: u32 = read_be32(slice_subrange(data, 8, data.len()));
        assert(data@.subrange(8, data@.len() as int) =~= data@.skip(8));
        Ok(cid)
    }
}

/// A key as the device registered it.
#[derive(Debug)]
pub struct Registration {
    /// The public key in SEC1 form.
    pub public_key: Vec<u8>,
    /// What the device needs to find its private key again.
    pub key_handle: Vec<u8>,
}

/// The device's answer to an authentication.
#[derive(Debug)]
pub struct Authentication {
    /// Whether the user was present.
    pub presence: u8,
    /// The device's signature counter.
    pub counter: u32,
    /// The signature in DER.
    pub signature: Vec<u8>,
}

/// The key and the key handle of a registration.
pub open spec fn registered(r: Result<Registration, FidoError>) -> Result<
    (Seq<u8>, Seq<u8>),
    FidoError,
> {
    match r {
        Ok(reg) => Ok((reg.public_key@, reg.key_handle@)),
        Err(e) => Err(e),
    }
}

/// The presence, the counter and the signature of an authentication.
pub open spec fn authenticated(r: Result<Authentication, FidoError>) -> Result<
    (u8, u32, Seq<u8>),
    FidoError,
> {
    match r {
        Ok(a) => Ok((a.presence, a.counter, a.signature@)),
        Err(e) => Err(e),
    }
}

/// Whether a registration answer holds at least a key and the length of a key handle.
pub open spec fn registration_layout(resp: Seq<u8>) -> bool {
    resp.len() >= 67 && resp[0] == 5
}

/// The public key in a registration answer.
pub open spec fn registration_key(resp: Seq<u8>) -> Seq<u8> {
    resp.subrange(1, 66)
}

/// What a registration answer says, given whether its key is a P-256 key: the byte 5, the key in
/// 65 bytes, the length of the key handle, the key handle, and what is not looked at.
pub open spec fn registration(resp: Seq<u8>, is_key: bool) -> Result<
    (Seq<u8>, Seq<u8>),
    FidoError,
> {
    if !registration_layout(resp) {
        Err(FidoError::MalformedRegistration)
    } else if !is_key {
        Err(FidoError::NotP256)
    } else if resp.len() < 67 + resp[66] {
        Err(FidoError::KeyHandleTruncated)
    } else {
        Ok((registration_key(resp), resp.subrange(67, 67 + resp[66])))
    }
}

/// Takes a registration answer apart, given whether its key is a P-256 key.
pub fn split_registration(resp: &[u8], is_key: bool) -> (r: Result<Registration, FidoError>)
    ensures
        registered(r) == registration(resp@, is_key),
{
    if resp.len() < 67 || resp[0] != 0x05 {
        return Err(FidoError::MalformedRegistration);
    }
    if !is_key {
        return Err(FidoError::NotP256);
    }
    let size: usize = resp[66] as usize;
    if resp.len() < 67 + size {
        return Err(FidoError::KeyHandleTruncated);
    }
    let mut public_key: Vec<u8> = Vec::new();
    put(&mut public_key, slice_subrange(resp, 1, 66));
    let mut key_handle: Vec<u8> = Vec::new();
    put(&mut key_handle, slice_subrange(resp, 67, 67 + size));
    assert(public_key@ =~= registration_key(resp@));
    assert(key_handle@ =~= resp@.subrange(67, 67 + size));
    Ok(Registration { public_key, key_handle })
}

/// Reads a registration answer.
pub fn parse_registration(resp: &[u8]) -> (r: Result<Registration, FidoError>)
    ensures
        registered(r) == registration(resp@, p256_key(registration_key(resp@))),
{
    let is_key: bool = if resp.len() >= 67 {
        is_p256_key(slice_subrange(resp, 1, 66))
    } else {
        false
    };
    split_registration(resp, is_key)
}

/// What an authentication answer says, given whether its signature is one in DER: presence,
/// counter, signature.
pub open spec fn authentication(resp: Seq<u8>, is_signature: bool) -> Result<
    (u8, u32, Seq<u8>),
    FidoError,
> {
    if resp.len() < 6 {
        Err(FidoError::MalformedAuthentication)
    } else if !is_signature {
        Err(FidoError::NotDerSignature)
    } else {
        Ok((resp[0], from_be32(resp.skip(1)) as u32, resp.skip(5)))
    }
}

/// Takes an authentication answer apart, given whether its signature is one in DER.
pub fn split_authentication(resp: &[u8], is_signature: bool) -> (r: Result<
    Authentication,
    FidoError,
>)
    ensures
        authenticated(r) == authentication(resp@, is_signature),
{
    let len: usize = resp.len();
    if len < 6 {
        return Err(FidoError::MalformedAuthentication);
    }
    if !is_signature {
        return Err(FidoError::NotDerSignature);
    }
    let presence: u8 = resp[0];
    let counter: u32 = read_be32(slice_subrange(resp, 1, len));
    assert(resp@.subrange(1, len as int) =~= resp@.skip(1));
    let mut signature: Vec<u8> = Vec::new();
    put(&mut signature, slice_subrange(resp, 5, len));
    assert(signature@ =~= resp@.skip(5));
    Ok(Authentication { presence, counter, signature })
}

/// Reads an authentication answer.
pub fn parse_authentication(resp: &[u8]) -> (r: Result<Authentication, FidoError>)
    ensures
        authenticated(r) == authentication(resp@, p256_signature(resp@.skip(5))),
{
    let len: usize = resp.len();
    let is_signature: bool = if len >= 6 {
        let ok: bool = is_p256_signature(slice_subrange(resp, 5, len));
        assert(resp@.subrange(5, len as int) =~= resp@.skip(5));
        ok
    } else {
        false
    };
    split_authentication(resp, is_signature)
}

/// The text of a failure.
pub open spec fn failure_text(e: FidoError) -> Seq<char> {
    match e {
        FidoError::Hosted => "--hosted is not wired up yet (the sim has no HID transport)"@,
        FidoError::ShortInit => "short CTAPHID_INIT response"@,
        FidoError::UnexpectedCommand(cmd) => "unexpected CTAPHID response cmd "@ + hex_digits(
            cmd as int,
            2,
        ),
        FidoError::ResponseTooShort => "U2F response too short"@,
        FidoError::Status(sw) => "U2F status word "@ + hex_digits(sw as int, 4),
        FidoError::PresenceTimeout => "timed out waiting for user presence on the device"@,
        FidoError::MalformedRegistration => "malformed U2F registration response"@,
        FidoError::NotP256 => "registration key is not P-256"@,
        FidoError::KeyHandleTruncated => "key handle truncated"@,
        FidoError::MalformedAuthentication => "malformed U2F authentication response"@,
        FidoError::NotDerSignature => "authentication signature is not DER ECDSA"@,
        FidoError::SignatureMismatch => {
            "authentication signature does NOT verify against the registered key"@
        },
    }
}

impl FidoError {
    /// The failure in words.
    pub fn message(&self) -> (r: String)
        ensures
            r@ == failure_text(*self),
    {
        match self {
            FidoError::Hosted => {
                "--hosted is not wired up yet (the sim has no HID transport)".to_owned()
            },
            FidoError::ShortInit => "short CTAPHID_INIT response".to_owned(),
            FidoError::UnexpectedCommand(cmd) => join(
                "unexpected CTAPHID response cmd ",
                hex(*cmd as u128, 2).as_str(),
            ),
            FidoError::ResponseTooShort => "U2F response too short".to_owned(),
            FidoError::Status(sw) => join("U2F status word ", hex(*sw as u128, 4).as_str()),
            FidoError::PresenceTimeout => {
                "timed out waiting for user presence on the device".to_owned()
            },
            FidoError::MalformedRegistration => "malformed U2F registration response".to_owned(),
            FidoError::NotP256 => "registration key is not P-256".to_owned(),
            FidoError::KeyHandleTruncated => "key handle truncated".to_owned(),
            FidoError::MalformedAuthentication => {
                "malformed U2F authentication response".to_owned()
            },
            FidoError::NotDerSignature => "authentication signature is not DER ECDSA".to_owned(),
            FidoError::SignatureMismatch => {
                "authentication signature does NOT verify against the registered key".to_owned()
            },
        }
    }
}

/// A command is five header bytes, the length of its data in two bytes, its data, and two zeros.
pub proof fn a_command_is_laid_out(ins: u8, p1: u8, data: Seq<u8>)
    requires
        data.len() < 65536,
    ensures
        ({
            let a = apdu(ins, p1, data);
            let n = data.len() as int;
            &&& a.len() == n + 9
            &&& a.take(5) == seq![0u8, ins, p1, 0u8, 0u8]
            &&& a[5] * 256 + a[6] == n
            &&& a.subrange(7, 7 + n) == data
            &&& a.skip(7 + n) == seq![0u8, 0u8]
        }),
{
    let a = apdu(ins, p1, data);
    let n = data.len() as int;
    written_bytes_weigh_less_and_less(n);
    assert(a.take(5) =~= seq![0u8, ins, p1, 0u8, 0u8]);
    assert(a.subrange(7, 7 + n) =~= data);
    assert(a.skip(7 + n) =~= seq![0u8, 0u8]);
}

/// The reply to a command is its answer and, in the last two bytes, its status word.
pub proof fn a_reply_is_an_answer_and_a_status_word(cmd: u8, answer: Seq<u8>, high: u8, low: u8)
    ensures
        response(3, answer + seq![high, low]) == Ok::<(Seq<u8>, u16), FidoError>(
            (answer, (high * 256 + low) as u16),
        ),
        cmd != 3 ==> response(cmd, answer) == Err::<(Seq<u8>, u16), FidoError>(
            FidoError::UnexpectedCommand(cmd),
        ),
        answer.len() < 2 ==> response(3, answer) == Err::<(Seq<u8>, u16), FidoError>(
            FidoError::ResponseTooShort,
        ),
{
    let data = answer + seq![high, low];
    assert(data.take(data.len() - 2) =~= answer);
    assert(data.skip(data.len() - 2) =~= seq![high, low] + Seq::<u8>::empty());
    read_bytes_weigh_less_and_less(high, low, 0, 0, Seq::empty());
}

/// The answer to a command counts where its status word is 9000. Any other word is a refusal,
/// but for 6985 to a command that the user has to confirm: that one is sent again, for a minute.
pub proof fn status_words_decide(answer: Seq<u8>, high: u8, low: u8, waited_ms: u64)
    ensures
        ({
            let data = answer + seq![high, low];
            let sw = (high * 256 + low) as u16;
            let refused = FidoError::Status(sw);
            let granted = high == 0x90 && low == 0x00;
            let unconfirmed = high == 0x69 && low == 0x85;
            &&& immediate(3, data) == (if granted {
                Ok::<Seq<u8>, FidoError>(answer)
            } else {
                Err(refused)
            })
            &&& confirmed(3, data, waited_ms) == (if granted {
                Ok::<Option<Seq<u8>>, FidoError>(Some(answer))
            } else if !unconfirmed {
                Err(refused)
            } else if waited_ms < 60000 {
                Ok(None)
            } else {
                Err(FidoError::PresenceTimeout)
            })
        }),
{
    a_reply_is_an_answer_and_a_status_word(3, answer, high, low);
    assert(high * 256 + low == 0x9000 <==> high == 0x90 && low == 0x00);
    assert(high * 256 + low == 0x6985 <==> high == 0x69 && low == 0x85);
}

/// What is no reply to a command is refused alike, whether or not the user has to confirm it.
pub proof fn what_is_no_reply_is_refused(cmd: u8, data: Seq<u8>, waited_ms: u64)
    requires
        cmd != 3 || data.len() < 2,
    ensures
        ({
            let e = if cmd != 3 {
                FidoError::UnexpectedCommand(cmd)
            } else {
                FidoError::ResponseTooShort
            };
            &&& response(cmd, data) == Err::<(Seq<u8>, u16), FidoError>(e)
            &&& immediate(cmd, data) == Err::<Seq<u8>, FidoError>(e)
            &&& confirmed(cmd, data, waited_ms) == Err::<Option<Seq<u8>>, FidoError>(e)
        }),
{
}

/// The channel stands behind a nonce of eight bytes, most significant byte first.
pub proof fn a_channel_stands_behind_its_nonce(
    nonce: Seq<u8>,
    a: u8,
    b: u8,
    c: u8,
    d: u8,
    rest: Seq<u8>,
    short: Seq<u8>,
)
    requires
        nonce.len() == 8,
        short.len() < 12,
    ensures
        allocated(nonce + seq![a, b, c, d] + rest) == Ok::<u32, FidoError>(
            (a * 16777216 + b * 65536 + c * 256 + d) as u32,
        ),
        allocated(short) == Err::<u32, FidoError>(FidoError::ShortInit),
{
    let data = nonce + seq![a, b, c, d] + rest;
    assert(data.skip(8) =~= seq![a, b, c, d] + rest);
    read_bytes_weigh_less_and_less(a, b, c, d, rest);
}

/// A registration answer is the byte 5, a key of 65 bytes, the length of the key handle, the key
/// handle, and a tail that is not looked at: key and key handle come out whole.
pub proof fn a_registration_reads_back(key: Seq<u8>, key_handle: Seq<u8>, tail: Seq<u8>)
    requires
        key.len() == 65,
        key_handle.len() <= 255,
    ensures
        ({
            let resp = seq![5u8] + key + seq![key_handle.len() as u8] + key_handle + tail;
            &&& registration_key(resp) == key
            &&& registration(resp, true) == Ok::<(Seq<u8>, Seq<u8>), FidoError>((key, key_handle))
            &&& registration(resp, false) == Err::<(Seq<u8>, Seq<u8>), FidoError>(
                FidoError::NotP256,
            )
        }),
{
    let resp = seq![5u8] + key + seq![key_handle.len() as u8] + key_handle + tail;
    assert(resp[66] == key_handle.len());
    assert(resp.subrange(1, 66) =~= key);
    assert(resp.subrange(67, 67 + key_handle.len() as int) =~= key_handle);
}

/// An answer that does not begin with the byte 5, or that is too short to hold a key and a
/// length, is no registration; one that ends before its key handle does is cut off.
pub proof fn a_broken_registration_is_refused(resp: Seq<u8>, is_key: bool)
    ensures
        resp.len() < 67 || resp[0] != 5 ==> registration(resp, is_key) == Err::<
            (Seq<u8>, Seq<u8>),
            FidoError,
        >(FidoError::MalformedRegistration),
        resp.len() >= 67 && resp[0] == 5 && resp.len() - 67 < resp[66] ==> registration(resp, true)
            == Err::<(Seq<u8>, Seq<u8>), FidoError>(FidoError::KeyHandleTruncated),
        resp.len() >= 67 && resp[0] == 5 ==> registration(resp, false) == Err::<
            (Seq<u8>, Seq<u8>),
            FidoError,
        >(FidoError::NotP256),
        resp.len() >= 67 && resp[0] == 5 && resp.len() - 67 >= resp[66] ==> registration(
            resp,
            true,
        ) is Ok,
{
}

/// An authentication answer is the presence byte, the counter, most significant byte first, and
/// the signature: all three come out whole.
pub proof fn an_authentication_reads_back(
    presence: u8,
    a: u8,
    b: u8,
    c: u8,
    d: u8,
    signature: Seq<u8>,
    short: Seq<u8>,
    is_signature: bool,
)
    requires
        signature.len() > 0,
        short.len() < 6,
    ensures
        ({
            let resp = seq![presence, a, b, c, d] + signature;
            &&& resp.skip(5) == signature
            &&& authentication(resp, true) == Ok::<(u8, u32, Seq<u8>), FidoError>(
                (presence, (a * 16777216 + b * 65536 + c * 256 + d) as u32, signature),
            )
            &&& authentication(resp, false) == Err::<(u8, u32, Seq<u8>), FidoError>(
                FidoError::NotDerSignature,
            )
            &&& authentication(short, is_signature) == Err::<(u8, u32, Seq<u8>), FidoError>(
                FidoError::MalformedAuthentication,
            )
        }),
{
    let resp = seq![presence, a, b, c, d] + signature;
    assert(resp.skip(5) =~= signature);
    assert(resp.skip(1) =~= seq![a, b, c, d] + signature);
    read_bytes_weigh_less_and_less(a, b, c, d, signature);
}

/// What each failure says; commands and status words are told in hexadecimal.
pub proof fn failures_are_told(cmd: u8, sw: u16)
    ensures
        failure_text(FidoError::Hosted)
            == "--hosted is not wired up yet (the sim has no HID transport)"@,
        failure_text(FidoError::ShortInit) == "short CTAPHID_INIT response"@,
        failure_text(FidoError::ResponseTooShort) == "U2F response too short"@,
        failure_text(FidoError::PresenceTimeout)
            == "timed out waiting for user presence on the device"@,
        failure_text(FidoError::MalformedRegistration) == "malformed U2F registration response"@,
        failure_text(FidoError::NotP256) == "registration key is not P-256"@,
        failure_text(FidoError::KeyHandleTruncated) == "key handle truncated"@,
        failure_text(FidoError::MalformedAuthentication)
            == "malformed U2F authentication response"@,
        failure_text(FidoError::NotDerSignature) == "authentication signature is not DER ECDSA"@,
        failure_text(FidoError::SignatureMismatch)
            == "authentication signature does NOT verify against the registered key"@,
        ({
            let before = "unexpected CTAPHID response cmd "@;
            let told = failure_text(FidoError::UnexpectedCommand(cmd));
            let digits = told.skip(before.len() as int);
            &&& told == before + digits
            &&& digits.len() == 2
            &&& in_base(digits, 16)
            &&& spelled(digits, 16) == cmd
        }),
        ({
            let before = "U2F status word "@;
            let told = failure_text(FidoError::Status(sw));
            let digits = told.skip(before.len() as int);
            &&& told == before + digits
            &&& digits.len() == 4
            &&& in_base(digits, 16)
            &&& spelled(digits, 16) == sw
        }),
{
    hexadecimal_digits_spell_their_number(cmd as int, 2);
    hexadecimal_digits_spell_their_number(sw as int, 4);
    assert(pow(16, 2) == 256 && pow(16, 4) == 65536) by {
        reveal_with_fuel(pow, 5);
    }
    let b1 = "unexpected CTAPHID response cmd "@;
    let t1 = failure_text(FidoError::UnexpectedCommand(cmd));
    assert(t1.skip(b1.len() as int) =~= hex_digits(cmd as int, 2));
    let b2 = "U2F status word "@;
    let t2 = failure_text(FidoError::Status(sw));
    assert(t2.skip(b2.len() as int) =~= hex_digits(sw as int, 4));
}

/// What the functions give back is seen as it is.
pub proof fn answers_are_seen_as_they_are(
    answer: Vec<u8>,
    sw: u16,
    reg: Registration,
    auth: Authentication,
    e: FidoError,
)
    ensures
        parted(Ok((answer, sw))) == Ok::<(Seq<u8>, u16), FidoError>((answer@, sw)),
        parted(Err(e)) == Err::<(Seq<u8>, u16), FidoError>(e),
        seen_if_any(Ok(Some(answer))) == Ok::<Option<Seq<u8>>, FidoError>(Some(answer@)),
        seen_if_any(Ok(None)) == Ok::<Option<Seq<u8>>, FidoError>(None),
        seen_if_any(Err(e)) == Err::<Option<Seq<u8>>, FidoError>(e),
        seen(Ok::<Vec<u8>, FidoError>(answer)) == Ok::<Seq<u8>, FidoError>(answer@),
        seen(Err::<Vec<u8>, FidoError>(e)) == Err::<Seq<u8>, FidoError>(e),
        registered(Ok(reg)) == Ok::<(Seq<u8>, Seq<u8>), FidoError>(
            (reg.public_key@, reg.key_handle@),
        ),
        registered(Err(e)) == Err::<(Seq<u8>, Seq<u8>), FidoError>(e),
        authenticated(Ok(auth)) == Ok::<(u8, u32, Seq<u8>), FidoError>(
            (auth.presence, auth.counter, auth.signature@),
        ),
        authenticated(Err(e)) == Err::<(u8, u32, Seq<u8>), FidoError>(e),
{
}

} // verus!
