//! What the backend does on a QuantumLink session: its timing, the echo check and the benchmark.

use crate::bytes::{
    be32, be32_reads_back, be32_writes_back, from_be32, put, read_be32,
    read_bytes_weigh_less_and_less, to_be32,
};
use crate::text::same;
use std::convert::Infallible;
use vstd::prelude::*;
use vstd::slice::slice_subrange;

verus! {

/// Timing of a session over a BLE link, in milliseconds; zero switches a timer off.
#[derive(Debug, Clone, Copy)]
pub struct LinkConfig {
    pub handshake_timeout_ms: u64,
    pub session_record_retransmit_timeout_ms: u64,
    pub session_keepalive_interval_ms: u64,
    pub session_peer_timeout_ms: u64,
}

/// The timing that the device uses: ten seconds for the handshake, two for a retransmission,
/// no keepalive and no peer timeout.
pub fn ble_config() -> (c: LinkConfig)
    ensures
        c.handshake_timeout_ms == 10_000,
        c.session_record_retransmit_timeout_ms == 2_000,
        c.session_keepalive_interval_ms == 0,
        c.session_peer_timeout_ms == 0,
{
    LinkConfig {
        handshake_timeout_ms: 10_000,
        session_record_retransmit_timeout_ms: 2_000,
        session_keepalive_interval_ms: 0,
        session_peer_timeout_ms: 0,
    }
}

/// Asks for a stream of this many bytes.
#[derive(Debug, Clone, Copy)]
pub struct BenchmarkRequest {
    pub length: u32,
}

/// A benchmark request on the wire: its length in four big-endian bytes.
pub open spec fn request_bytes(r: BenchmarkRequest) -> Seq<u8> {
    be32(r.length as int)
}

/// The benchmark request at the front of `bytes`, and what is left behind it.
pub open spec fn request_read(bytes: Seq<u8>) -> (BenchmarkRequest, Seq<u8>) {
    (BenchmarkRequest { length: from_be32(bytes) as u32 }, bytes.skip(4))
}

impl BenchmarkRequest {
    /// Writes the request behind what stands in `out`.
    pub fn encode_value(&self, out: &mut Vec<u8>)
        ensures
            final(out)@ == old(out)@ + request_bytes(*self),
    {
        let length: [u8; 4] = to_be32(self.length);
        put(out, length.as_slice());
    }

    /// Takes a request off the front of `bytes` and leaves what stands behind it.
    pub fn decode_value(bytes: &mut &[u8]) -> (r: Result<BenchmarkRequest, Infallible>)
        requires
            old(bytes)@.len() >= 4,
        ensures
            r matches Ok(request) && (request, final(bytes)@) == request_read(old(bytes)@),
    {
        let all: &[u8] = *bytes;
        let length: u32 = read_be32(all);
        *bytes = slice_subrange(all, 4, all.len());
        assert(bytes@ =~= old(bytes)@.skip(4));
        Ok(BenchmarkRequest { length })
    }
}

/// Decoding an encoded request gives the request and leaves exactly what followed it.
pub proof fn benchmark_request_reads_back(r: BenchmarkRequest, rest: Seq<u8>)
    ensures
        request_bytes(r).len() == 4,
        request_read(request_bytes(r) + rest) == (r, rest),
{
    be32_reads_back(r.length as int);
    let b = request_bytes(r);
    let s = b + rest;
    assert(s[0] == b[0] && s[1] == b[1] && s[2] == b[2] && s[3] == b[3]);
    assert(s.skip(4) =~= rest);
}

/// A request is its length in four bytes, the most significant first.
pub proof fn a_request_is_laid_out(a: u8, b: u8, c: u8, d: u8, rest: Seq<u8>)
    ensures
        ({
            let r = BenchmarkRequest {
                length: (a * 16777216 + b * 65536 + c * 256 + d) as u32,
            };
            &&& request_bytes(r) == seq![a, b, c, d]
            &&& request_read(seq![a, b, c, d] + rest) == (r, rest)
        }),
{
    let s = seq![a, b, c, d];
    read_bytes_weigh_less_and_less(a, b, c, d, rest);
    read_bytes_weigh_less_and_less(a, b, c, d, Seq::empty());
    assert(s + Seq::<u8>::empty() =~= s);
    be32_writes_back(s);
    assert((s + rest).skip(4) =~= rest);
}

/// What is sent to the device to be echoed.
pub fn echo_message() -> (m: String)
    ensures
        m@ == "hello from the backend over QL v2"@,
{
    "hello from the backend over QL v2".to_owned()
}

/// Whether an echo came back as it was sent.
pub fn echo_matches(sent: &str, reply: &str) -> (ok: bool)
    ensures
        ok == (sent@ == reply@),
{
    same(sent, reply)
}

/// Whether the wait for a peer status is over.
pub fn status_reached(status: &str, target: &str) -> (r: bool)
    ensures
        r == (status@ == target@),
{
    same(status, target)
}

/// What the benchmark stream brought.
#[derive(Debug)]
pub enum StreamEvent {
    /// A chunk of this many bytes.
    Chunk(usize),
    /// The stream broke.
    Error,
    /// The stream is complete.
    End,
}

/// What the benchmark does next.
#[derive(Debug, PartialEq, Eq)]
pub enum BenchmarkStep {
    /// Wait for the next event.
    Continue,
    /// Report a stream that broke after this many bytes.
    Failed { received: usize },
    /// Report a complete stream of this many bytes.
    Done { received: usize },
}

/// A benchmark under way.
#[derive(Debug)]
pub struct Benchmark {
    pub received: usize,
}

impl Benchmark {
    /// Nothing has been received.
    pub fn new() -> (b: Benchmark)
        ensures
            b.received == 0,
    {
        Benchmark { received: 0 }
    }

    /// Adds up what the stream brings until it ends or breaks.
    pub fn on_event(&mut self, event: StreamEvent) -> (step: BenchmarkStep)
        requires
            event matches StreamEvent::Chunk(n) ==> old(self).received + n <= usize::MAX,
        ensures
            final(self).received == old(self).received + (match event {
                StreamEvent::Chunk(n) => n as int,
                _ => 0,
            }),
            step == (match event {
                StreamEvent::Chunk(n) => BenchmarkStep::Continue,
                StreamEvent::Error => BenchmarkStep::Failed { received: old(self).received },
                StreamEvent::End => BenchmarkStep::Done { received: old(self).received },
            }),
    {
        match event {
            StreamEvent::Chunk(n) => {
                self.received = self.received + n;
                BenchmarkStep::Continue
            },
            StreamEvent::Error => BenchmarkStep::Failed { received: self.received },
            StreamEvent::End => BenchmarkStep::Done { received: self.received },
        }
    }
}

} // verus!
