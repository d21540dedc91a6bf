//! The FIDO exercise: open a channel, ask for the version, register, authenticate, and check the
//! authentication signature against the key that was just registered.

use crate::bytes::{
    be32, be32_writes_back, from_be16, from_be32, put, read_bytes_weigh_less_and_less, to_be32,
};
use crate::crypto::{
    p256_key, p256_signature, p256_verifies, sha256, sha256_of, verify_prehash,
};
use crate::ctaphid::{BROADCAST_CID, CTAPHID_INIT, CTAPHID_MSG, MAX_MESSAGE};
use crate::u2f::{
    a_broken_registration_is_refused, a_channel_stands_behind_its_nonce, a_registration_reads_back,
    allocated, an_authentication_reads_back, apdu, authentication, confirmed, ctaphid_init,
    immediate, parse_authentication, parse_registration, registration, registration_key, response,
    split_authentication, status_words_decide, u2f, u2f_apdu, u2f_await_presence, FidoError, SW_OK,
};
use vstd::prelude::*;
use vstd::utf8::encode_utf8;

verus! {

/// The USB vendor of the device.
pub const PASSPORT_VID: u16 = 0x1307;

/// The HID usage page of a FIDO interface.
pub const FIDO_USAGE_PAGE: u16 = 0xf1d0;

/// How long a single read may take: long enough for the prompt on the device.
pub const TIMEOUT_MS: i32 = 30_000;

/// Pause before an unconfirmed command is repeated.
pub const RETRY_MS: u64 = 200;

/// What the exercise runs against.
#[derive(Debug, Clone, Copy)]
pub struct Args {
    /// Run against the hosted simulator instead of a real device (not wired up yet).
    pub hosted: bool,
}

/// Whether a HID interface is the FIDO interface of the device.
pub fn is_fido_interface(vendor_id: u16, usage_page: u16) -> (r: bool)
    ensures
        r == (vendor_id == 0x1307 && usage_page == 0xf1d0),
{
    vendor_id == PASSPORT_VID && usage_page == FIDO_USAGE_PAGE
}

/// The challenge of the exercise: thirty-two fixed bytes.
pub open spec fn challenge() -> Seq<u8> {
    Seq::new(32, |i: int| ((13 * i + 1) % 256) as u8)
}

/// The application that the key is for: the digest of its address.
pub open spec fn app_id() -> Seq<u8> {
    sha256_of(encode_utf8("https://foundation.xyz"@))
}

/// What the device is asked to register.
pub open spec fn register_data() -> Seq<u8> {
    challenge() + app_id()
}

/// What the device is asked to sign with the key of a handle.
pub open spec fn authenticate_data(key_handle: Seq<u8>) -> Seq<u8> {
    challenge() + app_id() + seq![key_handle.len() as u8] + key_handle
}

/// What the device signs.
pub open spec fn signed(presence: u8, counter: u32) -> Seq<u8> {
    app_id() + seq![presence] + be32(counter as int) + challenge()
}

fn make_challenge() -> (c: Vec<u8>)
    ensures
        c@ == challenge(),
{
    let mut c: Vec<u8> = Vec::new();
    let mut i: u16 = 0;
    while i < 32
        invariant
            i <= 32,
            c@.len() == i,
            forall|j: int| 0 <= j < i ==> c@[j] == challenge()[j],
        decreases 32 - i,
    {
        c.push(((13 * i + 1) % 256) as u8);
        i += 1;
    }
    assert(c@ =~= challenge());
    c
}

fn make_register_data() -> (d: Vec<u8>)
    ensures
        d@ == register_data(),
        d@.len() == 64,
{
    let mut d: Vec<u8> = make_challenge();
    let id: [u8; 32] = sha256("https://foundation.xyz".as_bytes());
    put(&mut d, id.as_slice());
    d
}

fn make_authenticate_data(key_handle: &[u8]) -> (d: Vec<u8>)
    requires
        key_handle@.len() <= 255,
    ensures
        d@ == authenticate_data(key_handle@),
        d@.len() == 65 + key_handle@.len(),
{
    let mut d: Vec<u8> = make_register_data();
    d.push(key_handle.len() as u8);
    put(&mut d, key_handle);
    assert(d@ =~= authenticate_data(key_handle@));
    d
}

fn make_signed(presence: u8, counter: u32) -> (m: Vec<u8>)
    ensures
        m@ == signed(presence, counter),
{
    let mut m: Vec<u8> = Vec::new();
    let id: [u8; 32] = sha256("https://foundation.xyz".as_bytes());
    put(&mut m, id.as_slice());
    m.push(presence);
    let count: [u8; 4] = to_be32(counter);
    put(&mut m, count.as_slice());
    let c: Vec<u8> = make_challenge();
    put(&mut m, c.as_slice());
    assert(m@ =~= signed(presence, counter));
    m
}

/// Where the exercise stands: what the next reply answers.
#[verifier::ext_equal]
pub enum Phase {
    /// The channel allocation.
    Opening,
    /// The version, asked on this channel.
    Version { cid: u32 },
    /// The registration.
    Registering { cid: u32 },
    /// The authentication with the key that was registered.
    Authenticating { cid: u32, public_key: Seq<u8> },
    /// Nothing: the exercise is over, with this counter.
    Passed { counter: u32 },
}

/// What has to be done next.
#[verifier::ext_equal]
pub enum Task {
    /// Send this message and wait for the reply; the user may have to confirm it.
    Exchange { note: Learned, cid: u32, cmd: u8, payload: Seq<u8> },
    /// Pause and send the last message again.
    Again,
    /// Nothing: every check passed.
    Passed { counter: u32 },
}

/// What the last reply told.
#[verifier::ext_equal]
pub enum Learned {
    /// Nothing to tell.
    Nothing,
    /// The version.
    Version(Seq<u8>),
    /// The size of the key handle.
    KeyHandle(int),
}

/// The verdict on an authentication answer, given whether its signature is well-formed and
/// whether it verifies.
pub open spec fn verdict(resp: Seq<u8>, is_signature: bool, verifies: bool) -> Result<
    u32,
    FidoError,
> {
    match authentication(resp, is_signature) {
        Err(e) => Err(e),
        Ok((presence, counter, signature)) => if verifies {
            Ok(counter)
        } else {
            Err(FidoError::SignatureMismatch)
        },
    }
}

/// Whether the signature in an authentication answer is one that the holder of `public_key` made
/// over this exercise.
pub open spec fn answer_verifies(public_key: Seq<u8>, resp: Seq<u8>) -> bool {
    p256_verifies(
        public_key,
        sha256_of(signed(resp[0], from_be32(resp.skip(1)) as u32)),
        resp.skip(5),
    )
}

/// What a reply does to the exercise, `waited_ms` after the message was first sent. A failure
/// ends it and leaves it where it stood, and a run that has passed stays so.
pub open spec fn advanced(phase: Phase, cmd: u8, data: Seq<u8>, waited_ms: u64) -> (
    Phase,
    Result<Task, FidoError>,
) {
    match phase {
        Phase::Opening => match allocated(data) {
            Err(e) => (phase, Err(e)),
            Ok(cid) => (
                Phase::Version { cid },
                Ok(
                    Task::Exchange {
                        note: Learned::Nothing,
                        cid,
                        cmd: CTAPHID_MSG,
                        payload: apdu(0x03, 0x00, Seq::empty()),
                    },
                ),
            ),
        },
        Phase::Version { cid } => match immediate(cmd, data) {
            Err(e) => (phase, Err(e)),
            Ok(version) => (
                Phase::Registering { cid },
                Ok(
                    Task::Exchange {
                        note: Learned::Version(version),
                        cid,
                        cmd: CTAPHID_MSG,
                        payload: apdu(0x01, 0x00, register_data()),
                    },
                ),
            ),
        },
        Phase::Registering { cid } => match confirmed(cmd, data, waited_ms) {
            Err(e) => (phase, Err(e)),
            Ok(None) => (phase, Ok(Task::Again)),
            Ok(Some(resp)) => match registration(resp, p256_key(registration_key(resp))) {
                Err(e) => (phase, Err(e)),
                Ok((public_key, key_handle)) => (
                    Phase::Authenticating { cid, public_key },
                    Ok(
                        Task::Exchange {
                            note: Learned::KeyHandle(key_handle.len() as int),
                            cid,
                            cmd: CTAPHID_MSG,
                            payload: apdu(0x02, 0x03, authenticate_data(key_handle)),
                        },
                    ),
                ),
            },
        },
        Phase::Authenticating { cid, public_key } => match confirmed(cmd, data, waited_ms) {
            Err(e) => (phase, Err(e)),
            Ok(None) => (phase, Ok(Task::Again)),
            Ok(Some(resp)) => match verdict(
                resp,
                p256_signature(resp.skip(5)),
                answer_verifies(public_key, resp),
            ) {
                Err(e) => (phase, Err(e)),
                Ok(counter) => (Phase::Passed { counter }, Ok(Task::Passed { counter })),
            },
        },
        Phase::Passed { counter } => (phase, Ok(Task::Passed { counter })),
    }
}

#[derive(Debug)]
enum Stage {
    Opening,
    Version { cid: u32 },
    Registering { cid: u32 },
    Authenticating { cid: u32, public_key: Vec<u8> },
    Passed { counter: u32 },
}

/// One run of the exercise.
#[derive(Debug)]
pub struct Ceremony {
    stage: Stage,
}

/// What the last reply told.
#[derive(Debug, PartialEq, Eq)]
pub enum Note {
    /// Nothing to tell.
    Nothing,
    /// The version.
    Version(Vec<u8>),
    /// The size of the key handle.
    KeyHandle(usize),
}

/// What has to be done next.
#[derive(Debug, PartialEq, Eq)]
pub enum Action {
    /// Send this message and wait for the reply; the user may have to confirm it.
    Exchange { note: Note, cid: u32, cmd: u8, payload: Vec<u8> },
    /// Pause for `RETRY_MS` and send the last message again.
    Again,
    /// Nothing: every check passed.
    Passed { counter: u32 },
}

impl View for Note {
    type V = Learned;

    open spec fn view(&self) -> Learned {
        match self {
            Note::Nothing => Learned::Nothing,
            Note::Version(version) => Learned::Version(version@),
            Note::KeyHandle(size) => Learned::KeyHandle(*size as int),
        }
    }
}

impl View for Action {
    type V = Task;

    open spec fn view(&self) -> Task {
        match self {
            Action::Exchange { note, cid, cmd, payload } => Task::Exchange {
                note: note@,
                cid: *cid,
                cmd: *cmd,
                payload: payload@,
            },
            Action::Again => Task::Again,
            Action::Passed { counter } => Task::Passed { counter: *counter },
        }
    }
}

impl View for Ceremony {
    type V = Phase;

    closed spec fn view(&self) -> Phase {
        match self.stage {
            Stage::Opening => Phase::Opening,
            Stage::Version { cid } => Phase::Version { cid },
            Stage::Registering { cid } => Phase::Registering { cid },
            Stage::Authenticating { cid, public_key } => Phase::Authenticating {
                cid,
                public_key: public_key@,
            },
            Stage::Passed { counter } => Phase::Passed { counter },
        }
    }
}

/// A result with its action as a task.
pub open spec fn ordered(r: Result<Action, FidoError>) -> Result<Task, FidoError> {
    match r {
        Ok(action) => Ok(action@),
        Err(e) => Err(e),
    }
}

/// A message that `fragment` can cut and that the device can put together again.
pub open spec fn sendable(r: Result<Action, FidoError>) -> bool {
    r matches Ok(Action::Exchange { payload, .. }) ==> payload@.len() <= MAX_MESSAGE
}

/// Judges an authentication answer, given whether its signature is well-formed and whether it
/// verifies.
pub fn judge(resp: &[u8], is_signature: bool, verifies: bool) -> (r: Result<u32, FidoError>)
    ensures
        r == verdict(resp@, is_signature, verifies),
{
    match split_authentication(resp, is_signature) {
        Err(e) => Err(e),
        Ok(a) => if verifies {
            Ok(a.counter)
        } else {
            Err(FidoError::SignatureMismatch)
        },
    }
}

/// Reads an authentication answer and checks its signature against a public key.
pub fn check_authentication(public_key: &[u8], resp: &[u8]) -> (r: Result<u32, FidoError>)
    ensures
        r == verdict(
            resp@,
            p256_signature(resp@.skip(5)),
            answer_verifies(public_key@, resp@),
        ),
{
    match parse_authentication(resp) {
        Err(e) => Err(e),
        Ok(a) => {
            let message: Vec<u8> = make_signed(a.presence, a.counter);
            let digest: [u8; 32] = sha256(message.as_slice());
            let verifies: bool = match verify_prehash(
                public_key,
                digest.as_slice(),
                a.signature.as_slice(),
            ) {
                Ok(_) => true,
                Err(_) => false,
            };
            judge(resp, true, verifies)
        },
    }
}

impl Ceremony {
    /// Starts the exercise: a channel is allocated first. The simulator cannot be driven.
    pub fn start(args: Args) -> (r: Result<(Ceremony, Action), FidoError>)
        ensures
            match r {
                Err(e) => args.hosted && e == FidoError::Hosted,
                Ok((c, action)) => {
                    &&& !args.hosted
                    &&& c@ == Phase::Opening
                    &&& action@ == (Task::Exchange {
                        note: Learned::Nothing,
                        cid: BROADCAST_CID,
                        cmd: CTAPHID_INIT,
                        payload: Seq::new(8, |i: int| 0x42u8),
                    })
                },
            },
    {
        if args.hosted {
            return Err(FidoError::Hosted);
        }
        let payload: Vec<u8> = vec![0x42u8; 8];
        assert(payload@ =~= Seq::new(8, |i: int| 0x42u8));
        Ok(
            (
                Ceremony { stage: Stage::Opening },
                Action::Exchange { note: Note::Nothing, cid: BROADCAST_CID, cmd: CTAPHID_INIT, payload },
            ),
        )
    }

    /// Takes in the reply to the last message, `waited_ms` after that message was first sent. A run
    /// that has passed stays so.
    pub fn advance(&mut self, cmd: u8, data: &[u8], waited_ms: u64) -> (r: Result<
        Action,
        FidoError,
    >)
        ensures
            (final(self)@, ordered(r)) == advanced(old(self)@, cmd, data@, waited_ms),
            sendable(r),
    {
        match &self.stage {
            Stage::Opening => match ctaphid_init(data) {
                Err(e) => Err(e),
                Ok(cid) => {
                    let nothing: [u8; 0] = [];
                    let payload: Vec<u8> = u2f_apdu(0x03, 0x00, nothing.as_slice());
                    assert(nothing@ =~= Seq::<u8>::empty());
                    self.stage = Stage::Version { cid };
                    Ok(Action::Exchange { note: Note::Nothing, cid, cmd: CTAPHID_MSG, payload })
                },
            },
            Stage::Version { cid } => match u2f(cmd, data) {
                Err(e) => Err(e),
                Ok(version) => {
                    let cid: u32 = *cid;
                    let asked: Vec<u8> = make_register_data();
                    let payload: Vec<u8> = u2f_apdu(0x01, 0x00, asked.as_slice());
                    self.stage = Stage::Registering { cid };
                    Ok(
                        Action::Exchange {
                            note: Note::Version(version),
                            cid,
                            cmd: CTAPHID_MSG,
                            payload,
                        },
                    )
                },
            },
            Stage::Registering { cid } => match u2f_await_presence(cmd, data, waited_ms) {
                Err(e) => Err(e),
                Ok(None) => Ok(Action::Again),
                Ok(Some(resp)) => match parse_registration(resp.as_slice()) {
                    Err(e) => Err(e),
                    Ok(reg) => {
                        let cid: u32 = *cid;
                        let asked: Vec<u8> = make_authenticate_data(reg.key_handle.as_slice());
                        let payload: Vec<u8> = u2f_apdu(0x02, 0x03, asked.as_slice());
                        let size: usize = reg.key_handle.len();
                        self.stage = Stage::Authenticating { cid, public_key: reg.public_key };
                        Ok(
                            Action::Exchange {
                                note: Note::KeyHandle(size),
                                cid,
                                cmd: CTAPHID_MSG,
                                payload,
                            },
                        )
                    },
                },
            },
            Stage::Authenticating { cid, public_key } => match u2f_await_presence(
                cmd,
                data,
                waited_ms,
            ) {
                Err(e) => Err(e),
                Ok(None) => Ok(Action::Again),
                Ok(Some(resp)) => match check_authentication(
                    public_key.as_slice(),
                    resp.as_slice(),
                ) {
                    Err(e) => Err(e),
                    Ok(counter) => {
                        self.stage = Stage::Passed { counter };
                        Ok(Action::Passed { counter })
                    },
                },
            },
            Stage::Passed { counter } => Ok(Action::Passed { counter: *counter }),
        }
    }
}

/// The exercise passes only on a confirmed authentication answer whose signature verifies,
/// under the key that was registered, over the application, the presence, the counter and the
/// challenge of this run.
pub proof fn passing_means_verified(phase: Phase, cmd: u8, data: Seq<u8>, waited_ms: u64)
    requires
        !(phase is Passed),
        advanced(phase, cmd, data, waited_ms).0 is Passed,
    ensures
        phase is Authenticating,
        response(cmd, data) is Ok,
        response(cmd, data)->Ok_0.1 == SW_OK,
        authentication(response(cmd, data)->Ok_0.0, true) is Ok,
        ({
            let (presence, counter, signature) = authentication(
                response(cmd, data)->Ok_0.0,
                true,
            )->Ok_0;
            &&& p256_verifies(phase->public_key, sha256_of(signed(presence, counter)), signature)
            &&& advanced(phase, cmd, data, waited_ms).1 == Ok::<_, FidoError>(
                Task::Passed { counter },
            )
        }),
{
    assert(answer_verifies(phase->public_key, response(cmd, data)->Ok_0.0));
}

/// The key that an authentication is checked against is the one that this run registered, and
/// it does not change while the user takes time to confirm.
pub proof fn authenticating_key_was_registered(
    phase: Phase,
    cmd: u8,
    data: Seq<u8>,
    waited_ms: u64,
)
    requires
        advanced(phase, cmd, data, waited_ms).0 is Authenticating,
    ensures
        match phase {
            Phase::Authenticating { cid, public_key } => advanced(phase, cmd, data, waited_ms).0
                == phase,
            Phase::Registering { cid } => {
                &&& response(cmd, data) is Ok
                &&& registration(response(cmd, data)->Ok_0.0, true) is Ok
                &&& registration(response(cmd, data)->Ok_0.0, true)->Ok_0.0 == advanced(
                    phase,
                    cmd,
                    data,
                    waited_ms,
                ).0->public_key
                &&& p256_key(advanced(phase, cmd, data, waited_ms).0->public_key)
            },
            _ => false,
        },
{
}

/// A failure, or a command that has to be sent again, leaves the exercise where it stood.
pub proof fn only_progress_moves_the_exercise(phase: Phase, cmd: u8, data: Seq<u8>, waited_ms: u64)
    ensures
        ({
            let (next, r) = advanced(phase, cmd, data, waited_ms);
            r is Err || r->Ok_0 is Again ==> next == phase
        }),
{
}

/// A reply of the device, with the time since its message was first sent.
pub struct Reply {
    pub cmd: u8,
    pub data: Seq<u8>,
    pub waited_ms: u64,
}

/// Where the exercise stands after a run of replies.
pub open spec fn ran(replies: Seq<Reply>) -> Phase
    decreases replies.len(),
{
    if replies.len() == 0 {
        Phase::Opening
    } else {
        let r = replies.last();
        advanced(ran(replies.drop_last()), r.cmd, r.data, r.waited_ms).0
    }
}

/// Whether a reply registers a P-256 key.
pub open spec fn registers(r: Reply, public_key: Seq<u8>) -> bool {
    &&& response(r.cmd, r.data) matches Ok((answer, sw))
    &&& sw == SW_OK
    &&& registration(answer, true) matches Ok((key, _))
    &&& key == public_key
    &&& p256_key(key)
}

/// Whether a reply authenticates with a key: its signature is one by the holder of the key, over
/// the application, the presence, the counter and the challenge of the exercise.
pub open spec fn authenticates(r: Reply, public_key: Seq<u8>) -> bool {
    &&& response(r.cmd, r.data) matches Ok((answer, sw))
    &&& sw == SW_OK
    &&& authentication(answer, true) matches Ok((presence, counter, signature))
    &&& p256_verifies(public_key, sha256_of(signed(presence, counter)), signature)
}

proof fn the_key_came_from_a_reply(replies: Seq<Reply>)
    requires
        ran(replies) is Authenticating,
    ensures
        exists|i: int|
            0 <= i < replies.len() && registers(#[trigger] replies[i], ran(replies)->public_key),
    decreases replies.len(),
{
    let before = replies.drop_last();
    let r = replies.last();
    authenticating_key_was_registered(ran(before), r.cmd, r.data, r.waited_ms);
    if ran(before) is Authenticating {
        the_key_came_from_a_reply(before);
        let i = choose|i: int|
            0 <= i < before.len() && registers(#[trigger] before[i], ran(before)->public_key);
        assert(replies[i] == before[i]);
        assert(registers(replies[i], ran(replies)->public_key));
    } else {
        assert(registers(replies[replies.len() - 1], ran(replies)->public_key));
    }
}

/// A run that passes holds a reply that registered a key and, after it, one that authenticates
/// with that very key.
pub proof fn a_passed_run_proves_the_key(replies: Seq<Reply>)
    requires
        ran(replies) is Passed,
    ensures
        exists|i: int, j: int, public_key: Seq<u8>|
            0 <= i < j < replies.len() && registers(#[trigger] replies[i], public_key)
                && #[trigger] authenticates(replies[j], public_key),
    decreases replies.len(),
{
    let before = replies.drop_last();
    let r = replies.last();
    if ran(before) is Passed {
        a_passed_run_proves_the_key(before);
        let (i, j, public_key) = choose|i: int, j: int, public_key: Seq<u8>|
            0 <= i < j < before.len() && registers(#[trigger] before[i], public_key)
                && #[trigger] authenticates(before[j], public_key);
        assert(replies[i] == before[i] && replies[j] == before[j]);
        assert(registers(replies[i], public_key) && authenticates(replies[j], public_key));
    } else {
        passing_means_verified(ran(before), r.cmd, r.data, r.waited_ms);
        the_key_came_from_a_reply(before);
        let public_key = ran(before)->public_key;
        let i = choose|i: int|
            0 <= i < before.len() && registers(#[trigger] before[i], public_key);
        assert(replies[i] == before[i]);
        assert(authenticates(replies[replies.len() - 1], public_key));
        assert(registers(replies[i], public_key));
    }
}

/// The channel that the exercise runs on, once there is one.
pub open spec fn channel(phase: Phase) -> Option<u32> {
    match phase {
        Phase::Version { cid } => Some(cid),
        Phase::Registering { cid } => Some(cid),
        Phase::Authenticating { cid, .. } => Some(cid),
        _ => None,
    }
}

/// The exercise stays on the channel that the device allocated, and every further message goes
/// out on it.
pub proof fn the_channel_is_kept(phase: Phase, cmd: u8, data: Seq<u8>, waited_ms: u64)
    ensures
        ({
            let (next, r) = advanced(phase, cmd, data, waited_ms);
            &&& channel(phase) is Some && channel(next) is Some ==> channel(next) == channel(phase)
            &&& channel(phase) is None && channel(next) is Some ==> Ok::<u32, FidoError>(
                channel(next)->0,
            ) == allocated(data)
            &&& r matches Ok(Task::Exchange { cid, .. }) ==> channel(next) == Some(cid)
        }),
{
}

/// The reply of a device that carries out a command.
pub open spec fn granted(answer: Seq<u8>) -> Seq<u8> {
    answer + seq![0x90u8, 0x00u8]
}

#[verifier::spinoff_prover]
proof fn granted_is_read(answer: Seq<u8>)
    ensures
        response(CTAPHID_MSG, granted(answer)) == Ok::<(Seq<u8>, u16), FidoError>((answer, SW_OK)),
{
    let data = granted(answer);
    assert(data.take(data.len() - 2) =~= answer);
    let word = seq![0x90u8, 0x00u8];
    assert(data.skip(data.len() - 2) =~= word);
    assert(from_be16(word) == 0x9000);
}

/// A device that allocates a channel, grants every command, registers a P-256 key, and signs with
/// it what it is asked to sign, passes; the counter is the one that it gave.
pub proof fn an_honest_device_passes(
    allocation: Reply,
    version: Seq<u8>,
    reg: Seq<u8>,
    auth: Seq<u8>,
    waits: (u64, u64, u64),
)
    requires
        allocated(allocation.data) is Ok,
        registration(reg, p256_key(registration_key(reg))) is Ok,
        authentication(auth, p256_signature(auth.skip(5))) is Ok,
        answer_verifies(registration_key(reg), auth),
    ensures
        ({
            let p1 = advanced(
                Phase::Opening,
                allocation.cmd,
                allocation.data,
                allocation.waited_ms,
            ).0;
            let p2 = advanced(p1, CTAPHID_MSG, granted(version), waits.0).0;
            let p3 = advanced(p2, CTAPHID_MSG, granted(reg), waits.1).0;
            advanced(p3, CTAPHID_MSG, granted(auth), waits.2) == (
                Phase::Passed { counter: from_be32(auth.skip(1)) as u32 },
                Ok::<Task, FidoError>(Task::Passed { counter: from_be32(auth.skip(1)) as u32 }),
            )
        }),
{
    granted_is_read(version);
    granted_is_read(reg);
    granted_is_read(auth);
}

/// The challenge is thirty-two bytes, of which each is 13 more than the one before, and the
/// application is known by the digest of its address.
pub proof fn challenge_and_application_are_fixed()
    ensures
        challenge().len() == 32,
        challenge()[0] == 1,
        forall|i: int|
            0 < i < 32 ==> (#[trigger] challenge()[i] == challenge()[i - 1] + 13 || challenge()[i]
                == challenge()[i - 1] + 13 - 256),
        app_id() == sha256_of(encode_utf8("https://foundation.xyz"@)),
        register_data() == challenge() + app_id(),
{
}

/// Once a channel is allocated the version is asked for on it, and once the version is there the
/// device is asked to register challenge and application.
pub proof fn the_exercise_opens_and_registers(
    cmd: u8,
    nonce: Seq<u8>,
    a: u8,
    b: u8,
    c: u8,
    d: u8,
    rest: Seq<u8>,
    version: Seq<u8>,
    cid: u32,
    waited_ms: u64,
)
    requires
        nonce.len() == 8,
    ensures
        ({
            let given = (a * 16777216 + b * 65536 + c * 256 + d) as u32;
            advanced(Phase::Opening, cmd, nonce + seq![a, b, c, d] + rest, waited_ms) == (
                Phase::Version { cid: given },
                Ok::<Task, FidoError>(
                    Task::Exchange {
                        note: Learned::Nothing,
                        cid: given,
                        cmd: 3,
                        payload: apdu(3, 0, Seq::empty()),
                    },
                ),
            )
        }),
        advanced(Phase::Version { cid }, 3, version + seq![0x90u8, 0x00u8], waited_ms) == (
            Phase::Registering { cid },
            Ok::<Task, FidoError>(
                Task::Exchange {
                    note: Learned::Version(version),
                    cid,
                    cmd: 3,
                    payload: apdu(1, 0, challenge() + app_id()),
                },
            ),
        ),
{
    a_channel_stands_behind_its_nonce(nonce, a, b, c, d, rest, Seq::empty());
    status_words_decide(version, 0x90, 0x00, waited_ms);
}

/// A registration that is granted leads to an authentication with the very key handle that it
/// gave: the next command carries challenge, application, the length of the key handle and the
/// whole of it, and the key is kept to check the answer.
pub proof fn the_registered_handle_is_authenticated(
    cid: u32,
    key: Seq<u8>,
    key_handle: Seq<u8>,
    tail: Seq<u8>,
    waited_ms: u64,
)
    requires
        key.len() == 65,
        key_handle.len() <= 255,
    ensures
        ({
            let resp = seq![5u8] + key + seq![key_handle.len() as u8] + key_handle + tail;
            let asked = challenge() + app_id() + seq![key_handle.len() as u8] + key_handle;
            let phase = Phase::Registering { cid };
            advanced(phase, 3, resp + seq![0x90u8, 0x00u8], waited_ms) == (if p256_key(key) {
                (
                    Phase::Authenticating { cid, public_key: key },
                    Ok::<Task, FidoError>(
                        Task::Exchange {
                            note: Learned::KeyHandle(key_handle.len() as int),
                            cid,
                            cmd: 3,
                            payload: apdu(2, 3, asked),
                        },
                    ),
                )
            } else {
                (phase, Err(FidoError::NotP256))
            })
        }),
{
    let resp = seq![5u8] + key + seq![key_handle.len() as u8] + key_handle + tail;
    a_registration_reads_back(key, key_handle, tail);
    status_words_decide(resp, 0x90, 0x00, waited_ms);
}

/// An answer with a signature is checked over application, presence, counter and challenge,
/// against the key that it is held against.
pub proof fn an_answer_is_checked_over_what_was_signed(
    public_key: Seq<u8>,
    presence: u8,
    a: u8,
    b: u8,
    c: u8,
    d: u8,
    signature: Seq<u8>,
)
    requires
        signature.len() > 0,
    ensures
        answer_verifies(public_key, seq![presence, a, b, c, d] + signature) == p256_verifies(
            public_key,
            sha256_of(app_id() + seq![presence, a, b, c, d] + challenge()),
            signature,
        ),
{
    let resp = seq![presence, a, b, c, d] + signature;
    let counter = seq![a, b, c, d];
    an_authentication_reads_back(presence, a, b, c, d, signature, Seq::empty(), true);
    assert(resp.skip(1) =~= counter + signature);
    read_bytes_weigh_less_and_less(a, b, c, d, signature);
    read_bytes_weigh_less_and_less(a, b, c, d, Seq::empty());
    assert(counter + Seq::<u8>::empty() =~= counter);
    be32_writes_back(counter);
    let n = from_be32(resp.skip(1));
    assert(n == from_be32(counter));
    assert(signed(presence, n as u32) =~= app_id() + seq![presence, a, b, c, d] + challenge());
}

/// An authentication answer passes with its counter where its signature is one in DER that
/// verifies, and is refused for what is wrong with it otherwise.
pub proof fn a_signature_decides(
    cid: u32,
    public_key: Seq<u8>,
    presence: u8,
    a: u8,
    b: u8,
    c: u8,
    d: u8,
    signature: Seq<u8>,
    waited_ms: u64,
)
    requires
        signature.len() > 0,
    ensures
        ({
            let resp = seq![presence, a, b, c, d] + signature;
            let counter = (a * 16777216 + b * 65536 + c * 256 + d) as u32;
            let phase = Phase::Authenticating { cid, public_key };
            let digest = sha256_of(app_id() + seq![presence, a, b, c, d] + challenge());
            advanced(phase, 3, resp + seq![0x90u8, 0x00u8], waited_ms) == (
            if !p256_signature(signature) {
                (phase, Err::<Task, FidoError>(FidoError::NotDerSignature))
            } else if !p256_verifies(public_key, digest, signature) {
                (phase, Err(FidoError::SignatureMismatch))
            } else {
                (Phase::Passed { counter }, Ok(Task::Passed { counter }))
            })
        }),
        ({
            let resp = seq![presence, a, b, c, d] + signature;
            let counter = (a * 16777216 + b * 65536 + c * 256 + d) as u32;
            &&& verdict(resp, true, true) == Ok::<u32, FidoError>(counter)
            &&& verdict(resp, true, false) == Err::<u32, FidoError>(FidoError::SignatureMismatch)
            &&& verdict(resp, false, true) == Err::<u32, FidoError>(FidoError::NotDerSignature)
            &&& verdict(resp, false, false) == Err::<u32, FidoError>(FidoError::NotDerSignature)
        }),
{
    let resp = seq![presence, a, b, c, d] + signature;
    an_authentication_reads_back(presence, a, b, c, d, signature, Seq::empty(), true);
    an_answer_is_checked_over_what_was_signed(public_key, presence, a, b, c, d, signature);
    status_words_decide(resp, 0x90, 0x00, waited_ms);
}

/// What is wrong with a reply ends the exercise at every stage with that very failure, an
/// unconfirmed command is sent again, and neither moves the exercise on. A run that has passed
/// stays so.
pub proof fn failures_end_the_exercise(
    cid: u32,
    public_key: Seq<u8>,
    counter: u32,
    cmd: u8,
    data: Seq<u8>,
    waited_ms: u64,
)
    ensures
        data.len() < 12 ==> advanced(Phase::Opening, cmd, data, waited_ms) == (
            Phase::Opening,
            Err::<Task, FidoError>(FidoError::ShortInit),
        ),
        immediate(cmd, data) matches Err(e) ==> advanced(
            Phase::Version { cid },
            cmd,
            data,
            waited_ms,
        ) == (Phase::Version { cid }, Err::<Task, FidoError>(e)),
        forall|phase: Phase|
            phase == (Phase::Registering { cid }) || phase == (Phase::Authenticating {
                cid,
                public_key,
            }) ==> {
                &&& confirmed(cmd, data, waited_ms) matches Err(e) ==> #[trigger] advanced(
                    phase,
                    cmd,
                    data,
                    waited_ms,
                ) == (phase, Err::<Task, FidoError>(e))
                &&& confirmed(cmd, data, waited_ms) == Ok::<Option<Seq<u8>>, FidoError>(None)
                    ==> advanced(phase, cmd, data, waited_ms) == (
                    phase,
                    Ok::<Task, FidoError>(Task::Again),
                )
            },
        advanced(Phase::Passed { counter }, cmd, data, waited_ms) == (
            Phase::Passed { counter },
            Ok::<Task, FidoError>(Task::Passed { counter }),
        ),
{
}

/// A confirmed answer that is no registration, or no authentication, ends the exercise with what
/// is wrong with it.
pub proof fn broken_answers_end_the_exercise(
    cid: u32,
    public_key: Seq<u8>,
    answer: Seq<u8>,
    waited_ms: u64,
)
    ensures
        ({
            let phase = Phase::Registering { cid };
            let reply = answer + seq![0x90u8, 0x00u8];
            &&& answer.len() < 67 || answer[0] != 5 ==> advanced(phase, 3, reply, waited_ms) == (
                phase,
                Err::<Task, FidoError>(FidoError::MalformedRegistration),
            )
            &&& answer.len() >= 67 && answer[0] == 5 && answer.len() - 67 < answer[66] && p256_key(
                answer.subrange(1, 66),
            ) ==> advanced(phase, 3, reply, waited_ms) == (
                phase,
                Err::<Task, FidoError>(FidoError::KeyHandleTruncated),
            )
        }),
        answer.len() < 6 ==> ({
            let phase = Phase::Authenticating { cid, public_key };
            advanced(phase, 3, answer + seq![0x90u8, 0x00u8], waited_ms) == (
                phase,
                Err::<Task, FidoError>(FidoError::MalformedAuthentication),
            )
        }),
{
    status_words_decide(answer, 0x90, 0x00, waited_ms);
    a_broken_registration_is_refused(answer, p256_key(registration_key(answer)));
}

/// The timing and the device that the exercise is made for.
pub proof fn the_exercise_has_fixed_numbers()
    ensures
        PASSPORT_VID == 0x1307,
        FIDO_USAGE_PAGE == 0xf1d0,
        TIMEOUT_MS == 30000,
        RETRY_MS == 200,
{
}

/// What the exercise orders is seen as it is.
pub proof fn orders_are_seen_as_they_are(action: Action, note: Note, e: FidoError)
    ensures
        ordered(Ok(action)) == Ok::<Task, FidoError>(action@),
        ordered(Err(e)) == Err::<Task, FidoError>(e),
        match action {
            Action::Exchange { note: n, cid, cmd, payload } => action@ == (Task::Exchange {
                note: n@,
                cid,
                cmd,
                payload: payload@,
            }),
            Action::Again => action@ is Again,
            Action::Passed { counter } => action@ == (Task::Passed { counter }),
        },
        match note {
            Note::Nothing => note@ is Nothing,
            Note::Version(version) => note@ == Learned::Version(version@),
            Note::KeyHandle(size) => note@ == Learned::KeyHandle(size as int),
        },
{
}

} // verus!
