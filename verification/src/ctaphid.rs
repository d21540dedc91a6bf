//! CTAPHID, the framing of FIDO messages in fixed-size USB HID reports: a message is cut into one
//! initialization report and numbered continuation reports, and put together again on the other
//! side.

use crate::bytes::{put, read_be16, to_be16, to_be32};
use crate::text::{
    hex, hex_digits, hexadecimal_digits_spell_their_number, in_base, join, spelled,
};
use vstd::arithmetic::power::pow;
use vstd::prelude::*;
use vstd::slice::slice_subrange;
use vstd::string::StringExecFns;

verus! {

/// Bytes in one HID report.
pub const REPORT_SIZE: usize = 64;

/// Header of an initialization report: channel (4), command (1), length (2).
pub const INIT_HEADER: usize = 7;

/// Header of a continuation report: channel (4), sequence number (1).
pub const CONT_HEADER: usize = 5;

/// The channel on which channels are allocated.
pub const BROADCAST_CID: u32 = 0xffff_ffff;

/// Allocate a channel.
pub const CTAPHID_INIT: u8 = 0x06;

/// Carry a U2F message.
pub const CTAPHID_MSG: u8 = 0x03;

/// Sent by the device while it waits for the user.
pub const CTAPHID_KEEPALIVE: u8 = 0x3b;

/// Sent by the device in place of a reply that it cannot give.
pub const CTAPHID_ERROR: u8 = 0x3f;

/// Payload bytes of an initialization report.
pub const INIT_DATA: usize = 57;

/// Payload bytes of a continuation report.
pub const CONT_DATA: usize = 59;

/// The longest payload that `fragment` can number: 255 continuation reports.
pub const MAX_FRAGMENTED: usize = 15102;

/// The longest payload that the receiving side can put together again: a sequence number has
/// seven bits, so 128 continuation reports.
pub const MAX_MESSAGE: usize = 7609;

/// `s`, filled up with zeros to the size of a report.
pub open spec fn padded(s: Seq<u8>) -> Seq<u8> {
    s + Seq::new((REPORT_SIZE - s.len()) as nat, |i: int| 0u8)
}

/// The command byte of an initialization report: the command with its top bit set.
pub open spec fn init_byte(cmd: u8) -> u8 {
    if cmd < 128 {
        (cmd + 128) as u8
    } else {
        cmd
    }
}

/// How many reports a payload of `n` bytes takes.
pub open spec fn report_count(n: int) -> int {
    if n <= INIT_DATA {
        1
    } else {
        1 + (n - INIT_DATA + CONT_DATA - 1) / (CONT_DATA as int)
    }
}

/// How many bytes of an `n` byte payload the first `k` reports carry.
pub open spec fn carried(n: int, k: int) -> int {
    if k <= 0 {
        0
    } else if n <= INIT_DATA + CONT_DATA * (k - 1) {
        n
    } else {
        INIT_DATA + CONT_DATA * (k - 1)
    }
}

/// Report number `k` of a message.
pub open spec fn report(cid: u32, cmd: u8, payload: Seq<u8>, k: int) -> Seq<u8> {
    let n = payload.len() as int;
    let data = payload.subrange(carried(n, k), carried(n, k + 1));
    if k == 0 {
        padded(crate::bytes::be32(cid as int) + seq![init_byte(cmd)] + crate::bytes::be16(n) + data)
    } else {
        padded(crate::bytes::be32(cid as int) + seq![(k - 1) as u8] + data)
    }
}

/// The reports of a message, in the order in which they are sent.
pub open spec fn reports(cid: u32, cmd: u8, payload: Seq<u8>) -> Seq<Seq<u8>> {
    Seq::new(report_count(payload.len() as int) as nat, |k: int| report(cid, cmd, payload, k))
}

/// A report that holds `header`, then `data`, then zeros.
fn build_report(header: &[u8], data: &[u8]) -> (r: [u8; REPORT_SIZE])
    requires
        header@.len() + data@.len() <= REPORT_SIZE,
    ensures
        r@ == padded(header@ + data@),
{
    let mut r: [u8; REPORT_SIZE] = [0u8; REPORT_SIZE];
    let mut i: usize = 0;
    while i < header.len()
        invariant
            i <= header@.len(),
            header@.len() + data@.len() <= REPORT_SIZE,
            forall|j: int| 0 <= j < i ==> r@[j] == header@[j],
            forall|j: int| i <= j < REPORT_SIZE ==> r@[j] == 0,
        decreases header@.len() - i,
    {
        r[i] = header[i];
        i += 1;
    }
    let mut k: usize = 0;
    while k < data.len()
        invariant
            i == header@.len(),
            k <= data@.len(),
            header@.len() + data@.len() <= REPORT_SIZE,
            forall|j: int| 0 <= j < i ==> r@[j] == header@[j],
            forall|j: int| 0 <= j < k ==> r@[i + j] == data@[j],
            forall|j: int| i + k <= j < REPORT_SIZE ==> r@[j] == 0,
        decreases data@.len() - k,
    {
        r[i + k] = data[k];
        k += 1;
    }
    assert(r@ =~= padded(header@ + data@)) by {
        let whole = padded(header@ + data@);
        assert forall|j: int| 0 <= j < REPORT_SIZE implies r@[j] == whole[j] by {
            if i <= j < i + k {
                assert(r@[i + (j - i)] == data@[j - i]);
            }
        }
    }
    r
}

/// Cuts a message into reports: the first carries the channel, the command with its top bit set
/// and the payload's length, every other one the channel and its number, counted from zero.
pub fn fragment(cid: u32, cmd: u8, payload: &[u8]) -> (out: Vec<[u8; REPORT_SIZE]>)
    requires
        payload@.len() <= MAX_FRAGMENTED,
    ensures
        out@.len() == report_count(payload@.len() as int),
        forall|k: int|
            0 <= k < out@.len() ==> #[trigger] out@[k]@ == report(cid, cmd, payload@, k),
{
    let mut out: Vec<[u8; REPORT_SIZE]> = Vec::new();
    let channel: [u8; 4] = to_be32(cid);

    let mut header: Vec<u8> = Vec::new();
    put(&mut header, channel.as_slice());
    header.push(cmd | 0x80);
    assert(cmd < 128 ==> cmd | 0x80 == cmd + 128) by (bit_vector);
    assert(cmd >= 128 ==> cmd | 0x80 == cmd) by (bit_vector);
    let size: [u8; 2] = to_be16(payload.len() as u16);
    put(&mut header, size.as_slice());
    let first: usize = if payload.len() < INIT_DATA { payload.len() } else { INIT_DATA };
    out.push(build_report(header.as_slice(), slice_subrange(payload, 0, first)));
    assert(header@ =~= crate::bytes::be32(cid as int) + seq![init_byte(cmd)]
        + crate::bytes::be16(payload@.len() as int));
    assert(out@[0]@ == report(cid, cmd, payload@, 0));

    let mut offset: usize = first;
    let mut seq: u8 = 0;
    while offset < payload.len()
        invariant
            payload@.len() <= MAX_FRAGMENTED,
            channel@ == crate::bytes::be32(cid as int),
            offset == carried(payload@.len() as int, out@.len() as int),
            out@.len() == seq + 1,
            out@.len() <= report_count(payload@.len() as int),
            forall|k: int|
                0 <= k < out@.len() ==> #[trigger] out@[k]@ == report(cid, cmd, payload@, k),
        decreases payload@.len() - offset,
    {
        let left: usize = payload.len() - offset;
        let chunk: usize = if left < CONT_DATA { left } else { CONT_DATA };
        let mut header: Vec<u8> = Vec::new();
        put(&mut header, channel.as_slice());
        header.push(seq);
        assert(header@ =~= crate::bytes::be32(cid as int) + seq![seq]);
        let ghost before = out@;
        out.push(build_report(header.as_slice(), slice_subrange(payload, offset, offset + chunk)));
        assert(out@[before.len() as int]@ == report(cid, cmd, payload@, before.len() as int));
        assert(forall|k: int| 0 <= k < before.len() ==> out@[k] == before[k]);
        offset += chunk;
        seq += 1;
    }
    out
}

/// What is written to the device for one report: the report behind the number zero, which names
/// the only report that the device has.
pub fn output_report(report: &[u8; REPORT_SIZE]) -> (out: Vec<u8>)
    ensures
        out@ == seq![0u8] + report@,
{
    let mut out: Vec<u8> = Vec::new();
    out.push(0x00);
    put(&mut out, report.as_slice());
    assert(out@ =~= seq![0u8] + report@);
    out
}

/// Where the reassembly of a reply stands.
#[verifier::ext_equal]
pub struct Assembly {
    /// The payload received so far.
    pub acc: Seq<u8>,
    /// Payload bytes still to come.
    pub remaining: int,
    /// The number that the next continuation report has to carry.
    pub expected_seq: int,
    /// The command of the reply.
    pub cmd: u8,
}

/// What a report brought about.
#[verifier::ext_equal]
pub enum Outcome {
    /// Another report has to be read.
    More,
    /// The reply is complete.
    Reply { cmd: u8, data: Seq<u8> },
    /// The exchange failed.
    Failed(Failure),
}

/// Why an exchange failed.
#[verifier::ext_equal]
pub enum Failure {
    /// No report came in time.
    Timeout,
    /// The report has no complete header.
    TooShort,
    /// The continuation report carries another number than the next one.
    OutOfSequence,
    /// The device answered with an error message of these bytes.
    Device(Seq<u8>),
}

/// No report has been received yet.
pub open spec fn fresh() -> Assembly {
    Assembly { acc: Seq::empty(), remaining: 0, expected_seq: 0, cmd: 0 }
}

/// The first `n` bytes of `s`, or all of them.
pub open spec fn at_most(s: Seq<u8>, n: int) -> Seq<u8> {
    if s.len() <= n {
        s
    } else {
        s.take(n)
    }
}

/// An initialization report: its command byte has the top bit set.
pub open spec fn is_init(r: Seq<u8>) -> bool {
    r[4] >= 128
}

/// The state after a report that is long enough for its kind has been taken in.
pub open spec fn absorbed(s: Assembly, r: Seq<u8>) -> Assembly {
    if is_init(r) {
        let total = crate::bytes::from_be16(r.skip(5));
        let data = at_most(r.skip(INIT_HEADER as int), total);
        Assembly {
            acc: data,
            remaining: total - data.len(),
            expected_seq: 0,
            cmd: (r[4] - 128) as u8,
        }
    } else {
        let data = at_most(r.skip(CONT_HEADER as int), s.remaining);
        Assembly {
            acc: s.acc + data,
            remaining: s.remaining - data.len(),
            expected_seq: s.expected_seq + 1,
            cmd: s.cmd,
        }
    }
}

/// What one report does to the reassembly. An initialization report starts over; a continuation
/// report must carry the expected number. A complete keepalive message is passed over, a complete
/// error message ends the exchange, and any other complete message is the reply.
pub open spec fn step(s: Assembly, r: Seq<u8>) -> (Assembly, Outcome) {
    if r.len() == 0 {
        (s, Outcome::Failed(Failure::Timeout))
    } else if r.len() < CONT_HEADER {
        (s, Outcome::Failed(Failure::TooShort))
    } else if !is_init(r) && r[4] != s.expected_seq {
        (s, Outcome::Failed(Failure::OutOfSequence))
    } else {
        let next = absorbed(s, r);
        if next.remaining != 0 || next.cmd == CTAPHID_KEEPALIVE {
            (next, Outcome::More)
        } else if next.cmd == CTAPHID_ERROR {
            (next, Outcome::Failed(Failure::Device(next.acc)))
        } else {
            (next, Outcome::Reply { cmd: next.cmd, data: next.acc })
        }
    }
}

/// What a run of reports brings about: each is taken in until one of them ends the exchange.
pub open spec fn feed(s: Assembly, rs: Seq<Seq<u8>>) -> (Assembly, Outcome)
    decreases rs.len(),
{
    if rs.len() == 0 {
        (s, Outcome::More)
    } else {
        let (t, outcome) = feed(s, rs.drop_last());
        if outcome is More {
            step(t, rs.last())
        } else {
            (t, outcome)
        }
    }
}

/// The reassembly of one reply.
#[derive(Debug)]
pub struct Exchange {
    acc: Vec<u8>,
    remaining: usize,
    expected_seq: u8,
    response_cmd: u8,
}

/// Why an exchange with the device failed.
#[derive(Debug)]
pub enum ExchangeError {
    /// No report came in time.
    Timeout,
    /// The report has no complete header.
    TooShort,
    /// The continuation report carries another number than the next one.
    OutOfSequence,
    /// The device answered with an error message of these bytes.
    Device(Vec<u8>),
}

/// What a report brought about.
#[derive(Debug)]
pub enum Progress {
    /// Another report has to be read.
    More,
    /// The reply is complete.
    Reply { cmd: u8, data: Vec<u8> },
    /// The exchange failed.
    Failed(ExchangeError),
}

impl View for ExchangeError {
    type V = Failure;

    open spec fn view(&self) -> Failure {
        match self {
            ExchangeError::Timeout => Failure::Timeout,
            ExchangeError::TooShort => Failure::TooShort,
            ExchangeError::OutOfSequence => Failure::OutOfSequence,
            ExchangeError::Device(data) => Failure::Device(data@),
        }
    }
}

impl View for Progress {
    type V = Outcome;

    open spec fn view(&self) -> Outcome {
        match self {
            Progress::More => Outcome::More,
            Progress::Reply { cmd, data } => Outcome::Reply { cmd: *cmd, data: data@ },
            Progress::Failed(error) => Outcome::Failed(error@),
        }
    }
}

impl View for Exchange {
    type V = Assembly;

    closed spec fn view(&self) -> Assembly {
        Assembly {
            acc: self.acc@,
            remaining: self.remaining as int,
            expected_seq: self.expected_seq as int,
            cmd: self.response_cmd,
        }
    }
}

impl Exchange {
    /// No more than 128 continuation reports have been accepted in a row.
    pub open spec fn wf(&self) -> bool {
        self@.expected_seq <= 128
    }

    /// Ready for the first report of a reply.
    pub fn new() -> (x: Exchange)
        ensures
            x@ == fresh(),
            x.wf(),
    {
        let x = Exchange { acc: Vec::new(), remaining: 0, expected_seq: 0, response_cmd: 0 };
        assert(x@.acc =~= fresh().acc);
        x
    }

    /// Takes in what one read brought: a report, or nothing when the read timed out. An
    /// initialization report has to hold its whole header.
    pub fn accept(&mut self, report: &[u8]) -> (p: Progress)
        requires
            old(self).wf(),
            report@.len() < CONT_HEADER || !is_init(report@) || report@.len() >= INIT_HEADER,
        ensures
            (final(self)@, p@) == step(old(self)@, report@),
            final(self).wf(),
    {
        if report.len() == 0 {
            return Progress::Failed(ExchangeError::Timeout);
        }
        if report.len() < CONT_HEADER {
            return Progress::Failed(ExchangeError::TooShort);
        }
        let tag: u8 = report[4];
        assert(tag & 0x80 != 0 <==> tag >= 128) by (bit_vector);
        if tag & 0x80 != 0 {
            assert(tag >= 128 ==> tag & 0x7f == tag - 128) by (bit_vector);
            self.response_cmd = tag & 0x7f;
            let total: usize = read_be16(report[5], report[6]) as usize;
            let room: usize = report.len() - INIT_HEADER;
            let take: usize = if room < total { room } else { total };
            let mut data: Vec<u8> = Vec::new();
            put(&mut data, slice_subrange(report, INIT_HEADER, INIT_HEADER + take));
            self.acc = data;
            self.remaining = total - take;
            self.expected_seq = 0;
            assert(self@.acc =~= absorbed(old(self)@, report@).acc);
        } else {
            if tag != self.expected_seq {
                return Progress::Failed(ExchangeError::OutOfSequence);
            }
            let room: usize = report.len() - CONT_HEADER;
            let take: usize = if room < self.remaining { room } else { self.remaining };
            put(&mut self.acc, slice_subrange(report, CONT_HEADER, CONT_HEADER + take));
            self.remaining = self.remaining - take;
            self.expected_seq = self.expected_seq + 1;
            assert(self@.acc =~= absorbed(old(self)@, report@).acc);
        }
        assert(self@ =~= absorbed(old(self)@, report@));
        if self.remaining != 0 || self.response_cmd == CTAPHID_KEEPALIVE {
            Progress::More
        } else {
            let mut data: Vec<u8> = Vec::new();
            put(&mut data, self.acc.as_slice());
            assert(data@ =~= self.acc@);
            if self.response_cmd == CTAPHID_ERROR {
                Progress::Failed(ExchangeError::Device(data))
            } else {
                Progress::Reply { cmd: self.response_cmd, data }
            }
        }
    }
}

/// The first `k` reports of a message bring the first bytes of its payload together, whatever
/// was received before.
proof fn reports_accumulate(s: Assembly, cid: u32, cmd: u8, payload: Seq<u8>, k: int)
    requires
        payload.len() <= MAX_MESSAGE,
        1 <= k <= report_count(payload.len() as int),
    ensures
        ({
            let n = payload.len() as int;
            let (t, outcome) = feed(s, reports(cid, cmd, payload).take(k));
            &&& t == (Assembly {
                acc: payload.take(carried(n, k)),
                remaining: n - carried(n, k),
                expected_seq: k - 1,
                cmd: (cmd % 128) as u8,
            })
            &&& carried(n, k) < n ==> outcome is More
            &&& outcome == (if carried(n, k) < n || t.cmd == CTAPHID_KEEPALIVE {
                Outcome::More
            } else if t.cmd == CTAPHID_ERROR {
                Outcome::Failed(Failure::Device(payload))
            } else {
                Outcome::Reply { cmd: t.cmd, data: payload }
            })
        }),
    decreases k,
{
    let n = payload.len() as int;
    let rs = reports(cid, cmd, payload);
    let r = report(cid, cmd, payload, k - 1);
    assert(rs.take(k).drop_last() =~= rs.take(k - 1));
    assert(rs.take(k).last() == r);
    assert(r.len() == REPORT_SIZE);
    let data = payload.subrange(carried(n, k - 1), carried(n, k));
    if k == 1 {
        assert(rs.take(0).len() == 0);
        assert(feed(s, rs.take(0)) == (s, Outcome::More));
        assert(r[4] == init_byte(cmd));
        assert(r.skip(5)[0] == r[5] && r.skip(5)[1] == r[6]);
        assert(crate::bytes::from_be16(r.skip(5)) == n) by {
            crate::bytes::be16_reads_back(n);
            assert(r[5] == crate::bytes::be16(n)[0]);
            assert(r[6] == crate::bytes::be16(n)[1]);
        }
        assert(at_most(r.skip(INIT_HEADER as int), n) =~= data);
        assert(data =~= payload.take(carried(n, 1)));
    } else {
        reports_accumulate(s, cid, cmd, payload, k - 1);
        let (t, outcome) = feed(s, rs.take(k - 1));
        assert(carried(n, k - 1) < n);
        assert(r[4] == (k - 2) as u8);
        assert(k - 2 < 128);
        assert(at_most(r.skip(CONT_HEADER as int), t.remaining) =~= data);
        assert(t.acc + data =~= payload.take(carried(n, k)));
    }
    assert(carried(n, k) == n ==> payload.take(carried(n, k)) =~= payload);
}

/// Cutting a message into reports and putting the reports together again gives the command
/// (without its top bit) and the payload back, whatever was received before, and not before the
/// last report is in.
pub proof fn fragments_reassemble(s: Assembly, cid: u32, cmd: u8, payload: Seq<u8>)
    requires
        payload.len() <= MAX_MESSAGE,
        cmd % 128 != CTAPHID_KEEPALIVE,
        cmd % 128 != CTAPHID_ERROR,
    ensures
        feed(s, reports(cid, cmd, payload)).1 == (Outcome::Reply {
            cmd: (cmd % 128) as u8,
            data: payload,
        }),
        forall|k: int|
            0 <= k < reports(cid, cmd, payload).len() ==> feed(
                s,
                #[trigger] reports(cid, cmd, payload).take(k),
            ).1 is More,
{
    let n = payload.len() as int;
    let rs = reports(cid, cmd, payload);
    reports_accumulate(s, cid, cmd, payload, rs.len() as int);
    assert(rs.take(rs.len() as int) =~= rs);
    assert forall|k: int| 0 <= k < rs.len() implies feed(s, #[trigger] rs.take(k)).1 is More by {
        if k > 0 {
            reports_accumulate(s, cid, cmd, payload, k);
        }
    }
}

/// An error message from the device ends the exchange with its bytes.
pub proof fn error_message_ends_the_exchange(s: Assembly, cid: u32, note: Seq<u8>)
    requires
        note.len() <= MAX_MESSAGE,
    ensures
        feed(s, reports(cid, CTAPHID_ERROR, note)).1 == Outcome::Failed(Failure::Device(note)),
{
    let rs = reports(cid, CTAPHID_ERROR, note);
    reports_accumulate(s, cid, CTAPHID_ERROR, note, rs.len() as int);
    assert(rs.take(rs.len() as int) =~= rs);
}

/// Reports that come after others are taken in from where those left the exchange, as long as it
/// was still open.
pub proof fn feeding_goes_on(s: Assembly, a: Seq<Seq<u8>>, b: Seq<Seq<u8>>)
    requires
        feed(s, a).1 is More,
    ensures
        feed(s, a + b) == feed(feed(s, a).0, b),
    decreases b.len(),
{
    if b.len() == 0 {
        assert(a + b =~= a);
    } else {
        feeding_goes_on(s, a, b.drop_last());
        assert((a + b).drop_last() =~= a + b.drop_last());
        assert((a + b).last() == b.last());
    }
}

/// An initialization report starts over: what was received before it leaves no trace.
pub proof fn an_initialization_report_starts_over(s: Assembly, t: Assembly, rs: Seq<Seq<u8>>)
    requires
        rs.len() > 0,
        rs[0].len() >= INIT_HEADER,
        is_init(rs[0]),
    ensures
        feed(s, rs) == feed(t, rs),
    decreases rs.len(),
{
    let before = rs.drop_last();
    if before.len() > 0 {
        assert(before[0] == rs[0]);
        an_initialization_report_starts_over(s, t, before);
    } else {
        assert(feed(s, before) == (s, Outcome::More));
        assert(feed(t, before) == (t, Outcome::More));
        assert(rs.last() == rs[0]);
    }
}

/// A keepalive message never ends an exchange, and whatever follows it, from the next
/// initialization report on, comes out as if there had been none.
pub proof fn keepalive_is_passed_over(s: Assembly, cid: u32, note: Seq<u8>, rs: Seq<Seq<u8>>)
    requires
        note.len() <= MAX_MESSAGE,
        rs.len() > 0,
        rs[0].len() >= INIT_HEADER,
        is_init(rs[0]),
    ensures
        feed(s, reports(cid, CTAPHID_KEEPALIVE, note)).1 is More,
        feed(feed(s, reports(cid, CTAPHID_KEEPALIVE, note)).0, rs) == feed(s, rs),
        feed(s, reports(cid, CTAPHID_KEEPALIVE, note) + rs) == feed(s, rs),
{
    let first = reports(cid, CTAPHID_KEEPALIVE, note);
    reports_accumulate(s, cid, CTAPHID_KEEPALIVE, note, first.len() as int);
    assert(first.take(first.len() as int) =~= first);
    an_initialization_report_starts_over(s, feed(s, first).0, rs);
    feeding_goes_on(s, first, rs);
}

/// A report has 64 bytes, of which the first four are its channel. The first report of a message
/// carries the command with its top bit set, the length of the payload, and its first 57 bytes; a
/// further one carries its number, counted from zero, and the next 59 bytes. Zeros fill it up.
pub proof fn a_report_is_laid_out(cid: u32, cmd: u8, payload: Seq<u8>, k: int)
    requires
        payload.len() <= 15102,
        0 <= k < report_count(payload.len() as int),
    ensures
        ({
            let r = report(cid, cmd, payload, k);
            &&& r.len() == 64
            &&& r[0] * 16777216 + r[1] * 65536 + r[2] * 256 + r[3] == cid
            &&& k == 0 ==> {
                &&& r[4] >= 128 && (r[4] == cmd || r[4] == cmd + 128)
                &&& r[5] * 256 + r[6] == payload.len()
                &&& forall|b: int|
                    7 <= b < 64 ==> #[trigger] r[b] == (if b - 7 < payload.len() {
                        payload[b - 7]
                    } else {
                        0u8
                    })
            }
            &&& k > 0 ==> {
                &&& r[4] == k - 1
                &&& forall|b: int|
                    5 <= b < 64 ==> #[trigger] r[b] == (if 59 * k - 7 + b < payload.len() {
                        payload[59 * k - 7 + b]
                    } else {
                        0u8
                    })
            }
        }),
{
    let n = payload.len() as int;
    crate::bytes::written_bytes_weigh_less_and_less(cid as int);
    crate::bytes::written_bytes_weigh_less_and_less(n);
}

/// A message takes as many reports as its payload fills and no more: the last one carries its
/// last bytes. The numbers of the reports behind the first rise by one.
pub proof fn a_message_takes_the_reports_that_it_needs(cid: u32, cmd: u8, payload: Seq<u8>)
    requires
        payload.len() <= 15102,
    ensures
        ({
            let rs = reports(cid, cmd, payload);
            &&& rs.len() == report_count(payload.len() as int)
            &&& rs.len() >= 1
            &&& payload.len() <= 59 * rs.len() - 2
            &&& rs.len() == 1 || payload.len() > 59 * rs.len() - 61
            &&& forall|i: int| 0 < i < rs.len() ==> (#[trigger] rs[i])[4] == i - 1
            &&& forall|i: int|
                0 <= i < rs.len() ==> #[trigger] rs[i] == report(cid, cmd, payload, i)
        }),
{
    let rs = reports(cid, cmd, payload);
    assert forall|i: int| 0 < i < rs.len() implies (#[trigger] rs[i])[4] == i - 1 by {
        a_report_is_laid_out(cid, cmd, payload, i);
    }
}

/// What continuation reports carry behind their headers, one after the other.
pub open spec fn behind_headers(conts: Seq<Seq<u8>>) -> Seq<u8>
    decreases conts.len(),
{
    if conts.len() == 0 {
        Seq::empty()
    } else {
        behind_headers(conts.drop_last()) + conts.last().skip(5)
    }
}

/// Whether continuation reports hold their headers and are numbered from zero.
pub open spec fn numbered(conts: Seq<Seq<u8>>) -> bool {
    forall|j: int| 0 <= j < conts.len() ==> (#[trigger] conts[j]).len() >= 5 && conts[j][4] == j
}

/// What a complete message brings about, by its command.
pub open spec fn ending(cmd: int, data: Seq<u8>) -> Outcome {
    if cmd == 0x3b {
        Outcome::More
    } else if cmd == 0x3f {
        Outcome::Failed(Failure::Device(data))
    } else {
        Outcome::Reply { cmd: cmd as u8, data }
    }
}

/// What stands in an exchange while continuation reports with the right numbers come in.
proof fn numbered_reports_are_taken_in(
    s: Assembly,
    init: Seq<u8>,
    conts: Seq<Seq<u8>>,
)
    requires
        init.len() >= 7,
        init[4] >= 128,
        numbered(conts),
        conts.len() <= 128,
        conts.len() > 0 ==> init.len() - 7 + behind_headers(conts.drop_last()).len() < init[5] * 256
            + init[6],
    ensures
        ({
            let n = init[5] * 256 + init[6];
            let stream = init.skip(7) + behind_headers(conts);
            let kept = at_most(stream, n);
            let (t, outcome) = feed(s, seq![init] + conts);
            &&& t == (Assembly {
                acc: kept,
                remaining: n - kept.len(),
                expected_seq: conts.len() as int,
                cmd: (init[4] - 128) as u8,
            })
            &&& outcome == (if stream.len() < n {
                Outcome::More
            } else {
                ending(init[4] - 128, kept)
            })
        }),
    decreases conts.len(),
{
    let n = init[5] * 256 + init[6];
    let all = seq![init] + conts;
    if conts.len() == 0 {
        assert(all.drop_last() =~= Seq::empty());
        assert(feed(s, all.drop_last()) == (s, Outcome::More));
        assert(all.last() == init);
        crate::bytes::read_bytes_weigh_less_and_less(init[5], init[6], 0, 0, init.skip(7));
        assert(init.skip(5) =~= seq![init[5], init[6]] + init.skip(7));
        assert(init.skip(7) + behind_headers(conts) =~= init.skip(7));
    } else {
        let before = conts.drop_last();
        let r = conts.last();
        assert forall|j: int| 0 <= j < before.len() implies (#[trigger] before[j]).len() >= 5
            && before[j][4] == j by {
            assert(before[j] == conts[j]);
        }
        if before.len() > 0 {
            assert(behind_headers(before).len() >= behind_headers(before.drop_last()).len());
        }
        numbered_reports_are_taken_in(s, init, before);
        assert(all.drop_last() =~= seq![init] + before);
        assert(all.last() == r);
        assert(r == conts[conts.len() - 1]);
        let old_stream = init.skip(7) + behind_headers(before);
        let stream = init.skip(7) + behind_headers(conts);
        assert(stream =~= old_stream + r.skip(5));
        let (t, outcome) = feed(s, seq![init] + before);
        assert(outcome is More);
        assert(t.acc == old_stream);
        let data = at_most(r.skip(5), t.remaining);
        assert(t.acc + data =~= at_most(stream, n));
    }
}

/// A message is put together from an initialization report, which announces its length, and
/// continuation reports that are numbered 0, 1, 2 and so on: as long as bytes are missing more is
/// waited for, and once enough are there the message is the announced number of bytes from behind
/// the headers, in the order in which they came. What came before does not matter.
pub proof fn numbered_reports_make_a_message(s: Assembly, init: Seq<u8>, conts: Seq<Seq<u8>>)
    requires
        init.len() >= 7,
        init[4] >= 128,
        numbered(conts),
        conts.len() <= 128,
        conts.len() > 0 ==> init.len() - 7 + behind_headers(conts.drop_last()).len() < init[5] * 256
            + init[6],
    ensures
        ({
            let n = init[5] * 256 + init[6];
            let stream = init.skip(7) + behind_headers(conts);
            feed(s, seq![init] + conts).1 == (if stream.len() < n {
                Outcome::More
            } else {
                ending(init[4] - 128, stream.take(n))
            })
        }),
{
    numbered_reports_are_taken_in(s, init, conts);
    let n = init[5] * 256 + init[6];
    let stream = init.skip(7) + behind_headers(conts);
    if stream.len() == n {
        assert(stream.take(n) =~= stream);
    }
}

/// A continuation report whose number is not the count of those that came since the last
/// initialization report ends the exchange.
pub proof fn a_wrong_number_is_refused(
    s: Assembly,
    init: Seq<u8>,
    conts: Seq<Seq<u8>>,
    wrong: Seq<u8>,
)
    requires
        init.len() >= 7,
        init[4] >= 128,
        numbered(conts),
        conts.len() <= 128,
        conts.len() > 0 ==> init.len() - 7 + behind_headers(conts.drop_last()).len() < init[5] * 256
            + init[6],
        feed(s, seq![init] + conts).1 is More,
        wrong.len() >= 5,
        wrong[4] < 128,
        wrong[4] != conts.len(),
    ensures
        feed(s, (seq![init] + conts).push(wrong)).1 == Outcome::Failed(Failure::OutOfSequence),
{
    numbered_reports_are_taken_in(s, init, conts);
    let all = (seq![init] + conts).push(wrong);
    assert(all.drop_last() =~= seq![init] + conts);
    assert(all.last() == wrong);
}

/// What no message can come of, whatever was received: a read that timed out, and a report that
/// ends inside its header.
pub proof fn broken_reports_are_refused(s: Assembly, r: Seq<u8>)
    ensures
        r.len() == 0 ==> step(s, r) == (s, Outcome::Failed(Failure::Timeout)),
        1 <= r.len() <= 4 ==> step(s, r) == (s, Outcome::Failed(Failure::TooShort)),
{
}

/// Before any initialization report only a continuation report numbered zero is taken in; nothing
/// was announced, so it completes an empty message.
pub proof fn nothing_is_announced_at_first(r: Seq<u8>)
    requires
        r.len() >= 5,
        r[4] < 128,
    ensures
        step(fresh(), r).1 == (if r[4] == 0 {
            Outcome::Reply { cmd: 0, data: Seq::empty() }
        } else {
            Outcome::Failed(Failure::OutOfSequence)
        }),
{
    assert(at_most(r.skip(5), 0) =~= Seq::empty());
    assert(fresh().acc + at_most(r.skip(5), 0) =~= Seq::empty());
}

/// Bytes as a list of two-digit numbers, parted by commas.
pub open spec fn listed(bytes: Seq<u8>) -> Seq<char>
    decreases bytes.len(),
{
    if bytes.len() == 0 {
        Seq::empty()
    } else if bytes.len() == 1 {
        hex_digits(bytes[0] as int, 2)
    } else {
        listed(bytes.drop_last()) + ", "@ + hex_digits(bytes.last() as int, 2)
    }
}

/// The text of a failed exchange.
pub open spec fn exchange_failure_text(f: Failure) -> Seq<char> {
    match f {
        Failure::Timeout => "CTAPHID read timeout"@,
        Failure::TooShort => "CTAPHID report too short"@,
        Failure::OutOfSequence => "CTAPHID sequence mismatch"@,
        Failure::Device(data) => "CTAPHID error: ["@ + listed(data) + "]"@,
    }
}

impl ExchangeError {
    /// The failure in words.
    pub fn message(&self) -> (r: String)
        ensures
            r@ == exchange_failure_text(self@),
    {
        match self {
            ExchangeError::Timeout => "CTAPHID read timeout".to_owned(),
            ExchangeError::TooShort => "CTAPHID report too short".to_owned(),
            ExchangeError::OutOfSequence => "CTAPHID sequence mismatch".to_owned(),
            ExchangeError::Device(data) => {
                let mut list: String = String::new();
                let mut i: usize = 0;
                assert(data@.take(0).len() == 0);
                assert(list@ =~= listed(data@.take(0)));
                while i < data.len()
                    invariant
                        i <= data@.len(),
                        list@ == listed(data@.take(i as int)),
                    decreases data@.len() - i,
                {
                    let ghost before = data@.take(i as int);
                    if i > 0 {
                        list.append(", ");
                    }
                    list.append(hex(data[i] as u128, 2).as_str());
                    i += 1;
                    proof {
                        let now = data@.take(i as int);
                        assert(now.drop_last() =~= before);
                        assert(list@ =~= listed(now));
                    }
                }
                assert(data@.take(i as int) =~= data@);
                let mut r: String = join("CTAPHID error: [", list.as_str());
                r.append("]");
                r
            },
        }
    }
}

/// Whether a list spells byte number `i` where it belongs, in two hexadecimal digits.
pub open spec fn lists_byte(list: Seq<char>, bytes: Seq<u8>, i: int) -> bool {
    let pair = list.subrange(4 * i, 4 * i + 2);
    in_base(pair, 16) && spelled(pair, 16) == bytes[i]
}

/// Whether a comma and a space stand behind byte number `i` of a list.
pub open spec fn lists_comma(list: Seq<char>, i: int) -> bool {
    list[4 * i + 2] == ',' && list[4 * i + 3] == ' '
}

/// A list of bytes spells each of them in two hexadecimal digits, with a comma and a space between
/// two.
pub proof fn every_byte_is_listed(bytes: Seq<u8>)
    ensures
        listed(bytes).len() == (if bytes.len() == 0 {
            0
        } else {
            4 * bytes.len() - 2
        }),
        forall|i: int| 0 <= i < bytes.len() ==> #[trigger] lists_byte(listed(bytes), bytes, i),
        forall|i: int| 0 <= i < bytes.len() - 1 ==> #[trigger] lists_comma(listed(bytes), i),
    decreases bytes.len(),
{
    reveal_strlit(", ");
    let all = listed(bytes);
    if bytes.len() > 0 {
        let before = bytes.drop_last();
        let last = hex_digits(bytes.last() as int, 2);
        every_byte_is_listed(before);
        hexadecimal_digits_spell_their_number(bytes.last() as int, 2);
        assert(pow(16, 2) == 256) by {
            reveal_with_fuel(pow, 3);
        }
        let n = bytes.len() as int;
        if n == 1 {
            assert(all =~= last);
        } else {
            assert(all =~= listed(before) + ", "@ + last);
        }
        assert(all.subrange(4 * (n - 1), 4 * (n - 1) + 2) =~= last);
        assert forall|i: int| 0 <= i < n implies #[trigger] lists_byte(all, bytes, i) by {
            if i < n - 1 {
                assert(lists_byte(listed(before), before, i));
                assert(all.subrange(4 * i, 4 * i + 2) =~= listed(before).subrange(
                    4 * i,
                    4 * i + 2,
                ));
            }
        }
        assert forall|i: int| 0 <= i < n - 1 implies #[trigger] lists_comma(all, i) by {
            if i < n - 2 {
                assert(lists_comma(listed(before), i));
            }
        }
    }
}

/// What each failure says.
pub proof fn failures_say_what_happened(data: Seq<u8>)
    ensures
        exchange_failure_text(Failure::Timeout) == "CTAPHID read timeout"@,
        exchange_failure_text(Failure::TooShort) == "CTAPHID report too short"@,
        exchange_failure_text(Failure::OutOfSequence) == "CTAPHID sequence mismatch"@,
        exchange_failure_text(Failure::Device(data)) == "CTAPHID error: ["@ + listed(data) + "]"@,
{
}

/// The numbers that both sides have to agree on.
pub proof fn the_protocol_has_fixed_numbers()
    ensures
        REPORT_SIZE == 64,
        BROADCAST_CID == 0xffff_ffff,
        CTAPHID_INIT == 0x06,
        CTAPHID_MSG == 0x03,
        CTAPHID_KEEPALIVE == 0x3b,
        CTAPHID_ERROR == 0x3f,
        MAX_FRAGMENTED == 15102,
        MAX_MESSAGE == 7609,
{
}

/// What the exchange gives back is seen as it is.
pub proof fn progress_is_seen_as_it_is(p: Progress, e: ExchangeError)
    ensures
        match p {
            Progress::More => p@ is More,
            Progress::Reply { cmd, data } => p@ == (Outcome::Reply { cmd, data: data@ }),
            Progress::Failed(error) => p@ == Outcome::Failed(error@),
        },
        match e {
            ExchangeError::Timeout => e@ is Timeout,
            ExchangeError::TooShort => e@ is TooShort,
            ExchangeError::OutOfSequence => e@ is OutOfSequence,
            ExchangeError::Device(data) => e@ == Failure::Device(data@),
        },
{
}

/// Wherever an exchange stands, a continuation report with the number that is next adds the bytes
/// behind its header, as many as are missing, and makes the following number the next one; with
/// any other number it is refused.
pub proof fn a_continuation_report_adds_what_is_missing(
    s: Assembly,
    header: Seq<u8>,
    data: Seq<u8>,
    more: Seq<u8>,
)
    requires
        header.len() == 5,
        header[4] < 128,
        data.len() <= s.remaining,
        more.len() > 0 ==> data.len() == s.remaining,
    ensures
        header[4] == s.expected_seq ==> step(s, header + data + more).0 == (Assembly {
            acc: s.acc + data,
            remaining: s.remaining - data.len(),
            expected_seq: s.expected_seq + 1,
            cmd: s.cmd,
        }),
        header[4] == s.expected_seq && data.len() < s.remaining ==> step(
            s,
            header + data + more,
        ).1 is More,
        header[4] == s.expected_seq && data.len() == s.remaining ==> step(
            s,
            header + data + more,
        ).1 == ending(s.cmd as int, s.acc + data),
        header[4] != s.expected_seq ==> step(s, header + data + more) == (
            s,
            Outcome::Failed(Failure::OutOfSequence),
        ),
{
    let r = header + data + more;
    assert(r[4] == header[4]);
    assert(r.skip(5) =~= data + more);
    assert(at_most(r.skip(5), s.remaining) =~= data);
}

} // verus!
