//! Chunks on a TCP stream: each travels behind its length in four big-endian bytes.

use crate::bytes::{be32, from_be32, put, read_be32, to_be32};
use vstd::prelude::*;

verus! {

/// The bytes of each vector.
pub open spec fn contents(v: Seq<Vec<u8>>) -> Seq<Seq<u8>> {
    v.map_values(|b: Vec<u8>| b@)
}

/// A chunk as it stands on the wire.
pub open spec fn frame(chunk: Seq<u8>) -> Seq<u8> {
    be32(chunk.len() as int) + chunk
}

/// Chunks as they stand on the wire, one after the other.
pub open spec fn wire(chunks: Seq<Seq<u8>>) -> Seq<u8>
    decreases chunks.len(),
{
    if chunks.len() == 0 {
        Seq::empty()
    } else {
        frame(chunks[0]) + wire(chunks.skip(1))
    }
}

/// What the receiving side waits for.
#[verifier::ext_equal]
pub enum Awaiting {
    /// The length of the next chunk.
    Length,
    /// The next chunk, of this many bytes.
    Chunk(int),
}

/// How many bytes the receiving side has to read next.
pub open spec fn wanted(a: Awaiting) -> int {
    match a {
        Awaiting::Length => 4,
        Awaiting::Chunk(n) => n,
    }
}

/// What the next bytes bring: the length of a chunk, or a chunk.
pub open spec fn read_on(a: Awaiting, bytes: Seq<u8>) -> (Awaiting, Option<Seq<u8>>) {
    match a {
        Awaiting::Length => (Awaiting::Chunk(from_be32(bytes)), None),
        Awaiting::Chunk(n) => (Awaiting::Length, Some(bytes)),
    }
}

/// The chunks that come out of a stream that is read as far as it goes.
pub open spec fn received(a: Awaiting, stream: Seq<u8>) -> Seq<Seq<u8>>
    decreases stream.len(), (if a is Chunk { 1int } else { 0int }),
{
    let n = wanted(a);
    if n < 0 || stream.len() < n {
        Seq::empty()
    } else {
        let (next, chunk) = read_on(a, stream.take(n));
        match chunk {
            None => received(next, stream.skip(n)),
            Some(c) => seq![c] + received(next, stream.skip(n)),
        }
    }
}

/// One end of a link that carries chunks over a byte stream.
#[derive(Debug)]
pub struct Transport {
    awaiting: Option<usize>,
}

impl View for Transport {
    type V = Awaiting;

    closed spec fn view(&self) -> Awaiting {
        match self.awaiting {
            None => Awaiting::Length,
            Some(n) => Awaiting::Chunk(n as int),
        }
    }
}

/// What decoding a received chunk brought.
#[derive(Debug)]
pub enum Decoded {
    /// The chunk could not be decoded.
    Bad,
    /// More chunks are needed.
    Partial,
    /// The chunk completed this record.
    Record(Vec<u8>),
}

/// The record that a decoded chunk completes, if it does.
pub open spec fn completed(outcome: Decoded) -> Option<Vec<u8>> {
    match outcome {
        Decoded::Record(r) => Some(r),
        _ => None,
    }
}

/// A chunk behind its length, ready to be written.
pub fn frame_chunk(chunk: &[u8]) -> (f: Vec<u8>)
    ensures
        f@ == frame(chunk@),
{
    let len: usize = chunk.len();
    let short: u32 = (len as u64 % 4294967296) as u32;
    let size: [u8; 4] = to_be32(short);
    proof {
        crate::bytes::be32_keeps_low_bits(len as int);
    }
    let mut f: Vec<u8> = Vec::new();
    put(&mut f, size.as_slice());
    put(&mut f, chunk);
    assert(f@ =~= frame(chunk@));
    f
}

impl Transport {
    /// A link on which nothing has been read.
    pub fn new() -> (t: Transport)
        ensures
            t@ == Awaiting::Length,
    {
        Transport { awaiting: None }
    }

    /// The frames of an envelope that was cut into chunks, in the order in which they are
    /// written.
    pub fn send_envelope(chunks: &Vec<Vec<u8>>) -> (frames: Vec<Vec<u8>>)
        ensures
            contents(frames@) == contents(chunks@).map_values(|c: Seq<u8>| frame(c)),
    {
        let mut frames: Vec<Vec<u8>> = Vec::new();
        let mut i: usize = 0;
        while i < chunks.len()
            invariant
                i <= chunks@.len(),
                frames@.len() == i,
                forall|k: int| 0 <= k < i ==> #[trigger] frames@[k]@ == frame(chunks@[k]@),
            decreases chunks@.len() - i,
        {
            frames.push(frame_chunk(chunks[i].as_slice()));
            i += 1;
        }
        assert(contents(frames@) =~= contents(chunks@).map_values(|c: Seq<u8>| frame(c)));
        frames
    }

    /// The envelope that a decoded chunk completes, if it does: a chunk that cannot be decoded is
    /// dropped, and one that completes nothing is kept for later.
    pub fn recv_envelope(outcome: Decoded) -> (envelope: Option<Vec<u8>>)
        ensures
            envelope == completed(outcome),
    {
        match outcome {
            Decoded::Record(r) => Some(r),
            _ => None,
        }
    }

    /// How many bytes have to be read next.
    pub fn wanted(&self) -> (n: usize)
        ensures
            n == wanted(self@),
    {
        match self.awaiting {
            None => 4,
            Some(n) => n,
        }
    }

    /// Takes in the bytes that were read. A chunk comes out when they complete one.
    pub fn accept(&mut self, bytes: &[u8]) -> (chunk: Option<Vec<u8>>)
        requires
            bytes@.len() == wanted(old(self)@),
        ensures
            final(self)@ == read_on(old(self)@, bytes@).0,
            match chunk {
                None => read_on(old(self)@, bytes@).1 is None,
                Some(c) => read_on(old(self)@, bytes@).1 == Some(c@),
            },
    {
        match self.awaiting {
            None => {
                let len: u32 = read_be32(bytes);
                self.awaiting = Some(len as usize);
                None
            },
            Some(_) => {
                let mut c: Vec<u8> = Vec::new();
                put(&mut c, bytes);
                assert(c@ =~= bytes@);
                self.awaiting = None;
                Some(c)
            },
        }
    }
}

/// A whole frame at the front of a stream brings its chunk, and reading goes on behind it.
proof fn a_frame_is_read(chunk: Seq<u8>, rest: Seq<u8>)
    requires
        chunk.len() < 4294967296,
    ensures
        received(Awaiting::Length, frame(chunk) + rest) == seq![chunk] + received(
            Awaiting::Length,
            rest,
        ),
{
    let w = frame(chunk) + rest;
    let n = chunk.len() as int;
    crate::bytes::be32_reads_back(n);
    assert(w.take(4) =~= be32(n));
    assert(w.skip(4).take(n) =~= chunk);
    assert(w.skip(4).skip(n) =~= rest);
    assert(received(Awaiting::Length, w) == received(Awaiting::Chunk(n), w.skip(4)));
}

/// A stream that ends inside a frame brings no part of that frame.
proof fn a_cut_frame_is_not_read(chunk: Seq<u8>, k: int)
    requires
        chunk.len() < 4294967296,
        0 <= k < frame(chunk).len(),
    ensures
        received(Awaiting::Length, frame(chunk).take(k)) == Seq::<Seq<u8>>::empty(),
{
    let n = chunk.len() as int;
    let s = frame(chunk).take(k);
    if k >= 4 {
        crate::bytes::be32_reads_back(n);
        assert(s.take(4) =~= be32(n));
        assert(received(Awaiting::Length, s) == received(Awaiting::Chunk(n), s.skip(4)));
    }
}

/// Whether the length of every chunk fits in the four bytes in front of it.
pub open spec fn lengths_fit(chunks: Seq<Seq<u8>>) -> bool {
    forall|i: int| 0 <= i < chunks.len() ==> (#[trigger] chunks[i]).len() < 4294967296
}

proof fn chunks_are_read_first(chunks: Seq<Seq<u8>>, rest: Seq<u8>)
    requires
        lengths_fit(chunks),
    ensures
        received(Awaiting::Length, wire(chunks) + rest) == chunks + received(
            Awaiting::Length,
            rest,
        ),
    decreases chunks.len(),
{
    if chunks.len() == 0 {
        assert(wire(chunks) + rest =~= rest);
        assert(chunks + received(Awaiting::Length, rest) =~= received(Awaiting::Length, rest));
    } else {
        let first = chunks[0];
        let others = chunks.skip(1);
        assert forall|i: int| 0 <= i < others.len() implies (#[trigger] others[i]).len()
            < 4294967296 by {
            assert(others[i] == chunks[i + 1]);
        }
        chunks_are_read_first(others, rest);
        assert(wire(chunks) + rest =~= frame(first) + (wire(others) + rest));
        a_frame_is_read(first, wire(others) + rest);
        let tail = received(Awaiting::Length, rest);
        assert(seq![first] + (others + tail) =~= chunks + tail);
    }
}

/// What is read off the wire is what was written on it: the same chunks in the same order, where
/// the length of each fits in its four bytes.
pub proof fn wire_reads_back(chunks: Seq<Seq<u8>>)
    requires
        lengths_fit(chunks),
    ensures
        received(Awaiting::Length, wire(chunks)) == chunks,
{
    chunks_are_read_first(chunks, Seq::empty());
    assert(wire(chunks) + Seq::<u8>::empty() =~= wire(chunks));
    assert(chunks + received(Awaiting::Length, Seq::empty()) =~= chunks);
}

/// A stream that ends inside a frame brings the chunks in front of that frame and no part of it.
pub proof fn cut_frame_brings_nothing(chunks: Seq<Seq<u8>>, chunk: Seq<u8>, k: int)
    requires
        lengths_fit(chunks),
        chunk.len() < 4294967296,
        0 <= k < frame(chunk).len(),
    ensures
        received(Awaiting::Length, wire(chunks) + frame(chunk).take(k)) == chunks,
{
    chunks_are_read_first(chunks, frame(chunk).take(k));
    a_cut_frame_is_not_read(chunk, k);
    assert(chunks + received(Awaiting::Length, frame(chunk).take(k)) =~= chunks);
}

/// The frames of chunks, written one after the other, are the wire.
pub proof fn frames_make_the_wire(chunks: Seq<Seq<u8>>)
    ensures
        chunks.map_values(|c: Seq<u8>| frame(c)).flatten() == wire(chunks),
    decreases chunks.len(),
{
    let frames = chunks.map_values(|c: Seq<u8>| frame(c));
    if chunks.len() > 0 {
        frames_make_the_wire(chunks.skip(1));
        assert(frames.drop_first() =~= chunks.skip(1).map_values(|c: Seq<u8>| frame(c)));
        assert(frames.first() == frame(chunks[0]));
    }
}

/// The records that a run of decoded chunks hands on, in their order.
pub open spec fn records(outcomes: Seq<Decoded>) -> Seq<Vec<u8>>
    decreases outcomes.len(),
{
    if outcomes.len() == 0 {
        Seq::empty()
    } else {
        match outcomes.last() {
            Decoded::Record(r) => records(outcomes.drop_last()).push(r),
            _ => records(outcomes.drop_last()),
        }
    }
}

/// Whatever its size, a record that a chunk completes is handed on as it is; nothing else is.
pub proof fn every_completed_record_is_handed_on(r: Vec<u8>)
    ensures
        completed(Decoded::Record(r)) == Some(r),
        completed(Decoded::Partial) is None,
        completed(Decoded::Bad) is None,
{
}

/// How many of the chunks complete a record.
pub open spec fn completing(outcomes: Seq<Decoded>) -> int
    decreases outcomes.len(),
{
    if outcomes.len() == 0 {
        0
    } else {
        completing(outcomes.drop_last()) + (if outcomes.last() is Record {
            1int
        } else {
            0int
        })
    }
}

/// A run of decoded chunks hands on as many records as there are chunks that complete one: the
/// record of each such chunk comes behind those of all chunks before it.
pub proof fn no_record_is_lost(outcomes: Seq<Decoded>)
    ensures
        records(outcomes).len() == completing(outcomes),
        forall|i: int|
            0 <= i < outcomes.len() && (#[trigger] outcomes[i]) is Record ==> {
                &&& 0 <= completing(outcomes.take(i)) < records(outcomes).len()
                &&& Some(records(outcomes)[completing(outcomes.take(i))]) == completed(outcomes[i])
            },
    decreases outcomes.len(),
{
    if outcomes.len() > 0 {
        let before = outcomes.drop_last();
        no_record_is_lost(before);
        assert forall|i: int| 0 <= i < outcomes.len() && (#[trigger] outcomes[i]) is Record implies {
            &&& 0 <= completing(outcomes.take(i)) < records(outcomes).len()
            &&& Some(records(outcomes)[completing(outcomes.take(i))]) == completed(outcomes[i])
        } by {
            if i < before.len() {
                assert(before[i] == outcomes[i]);
                assert(outcomes.take(i) =~= before.take(i));
            } else {
                assert(outcomes.take(i) =~= before);
            }
        }
    }
}

/// Records come in the order of the chunks that complete them.
pub proof fn records_come_in_order(a: Seq<Decoded>, b: Seq<Decoded>)
    ensures
        records(a + b) == records(a) + records(b),
    decreases b.len(),
{
    if b.len() == 0 {
        assert(a + b =~= a);
        assert(records(a) + records(b) =~= records(a));
    } else {
        records_come_in_order(a, b.drop_last());
        assert((a + b).drop_last() =~= a + b.drop_last());
        assert((a + b).last() == b.last());
        assert(records(a + b) =~= records(a) + records(b));
    }
}

/// A chunk that cannot be decoded changes nothing, wherever it comes in.
pub proof fn bad_chunks_are_dropped(a: Seq<Decoded>, b: Seq<Decoded>)
    ensures
        records(a.push(Decoded::Bad) + b) == records(a + b),
{
    records_come_in_order(a.push(Decoded::Bad), b);
    records_come_in_order(a, b);
    assert(a.push(Decoded::Bad).drop_last() =~= a);
}

/// How chunks are decoded and put together: `decode` reads a chunk by itself, and `insert` adds
/// it to what is there.
#[verifier::reject_recursive_types(C)]
#[verifier::reject_recursive_types(D)]
pub struct Joiner<C, D> {
    pub decode: spec_fn(Seq<u8>) -> Option<C>,
    pub insert: spec_fn(D, C) -> (D, Option<Vec<u8>>),
}

/// What comes of one chunk. One that cannot be decoded is not added to what is there.
pub open spec fn joined<C, D>(j: Joiner<C, D>, d: D, chunk: Seq<u8>) -> (D, Decoded) {
    match (j.decode)(chunk) {
        None => (d, Decoded::Bad),
        Some(c) => match (j.insert)(d, c) {
            (next, Some(r)) => (next, Decoded::Record(r)),
            (next, None) => (next, Decoded::Partial),
        },
    }
}

/// What is there after chunks.
pub open spec fn gathered<C, D>(j: Joiner<C, D>, d: D, chunks: Seq<Seq<u8>>) -> D
    decreases chunks.len(),
{
    if chunks.len() == 0 {
        d
    } else {
        joined(j, gathered(j, d, chunks.drop_last()), chunks.last()).0
    }
}

/// What comes of each of the chunks.
pub open spec fn outcomes<C, D>(j: Joiner<C, D>, d: D, chunks: Seq<Seq<u8>>) -> Seq<Decoded>
    decreases chunks.len(),
{
    if chunks.len() == 0 {
        Seq::empty()
    } else {
        outcomes(j, d, chunks.drop_last()).push(
            joined(j, gathered(j, d, chunks.drop_last()), chunks.last()).1,
        )
    }
}

/// The chunks that can be decoded.
pub open spec fn decodable<C, D>(j: Joiner<C, D>, chunks: Seq<Seq<u8>>) -> Seq<Seq<u8>>
    decreases chunks.len(),
{
    if chunks.len() == 0 {
        chunks
    } else if (j.decode)(chunks.last()) is Some {
        decodable(j, chunks.drop_last()).push(chunks.last())
    } else {
        decodable(j, chunks.drop_last())
    }
}

/// What is there after chunks that can all be decoded.
pub open spec fn inserted<C, D>(j: Joiner<C, D>, d: D, chunks: Seq<Seq<u8>>) -> D
    decreases chunks.len(),
{
    if chunks.len() == 0 {
        d
    } else {
        (j.insert)(inserted(j, d, chunks.drop_last()), (j.decode)(chunks.last())->0).0
    }
}

/// What inserting chunks that can all be decoded gives back, in its order.
pub open spec fn given_back<C, D>(j: Joiner<C, D>, d: D, chunks: Seq<Seq<u8>>) -> Seq<Vec<u8>>
    decreases chunks.len(),
{
    if chunks.len() == 0 {
        Seq::empty()
    } else {
        let before = given_back(j, d, chunks.drop_last());
        match (j.insert)(inserted(j, d, chunks.drop_last()), (j.decode)(chunks.last())->0).1 {
            Some(r) => before.push(r),
            None => before,
        }
    }
}

/// Whether the chunks of each envelope, put together in turn, give that envelope and nothing else.
pub open spec fn restores<C, D>(
    j: Joiner<C, D>,
    d: D,
    cut: Seq<Seq<Seq<u8>>>,
    envelopes: Seq<Vec<u8>>,
) -> bool
    decreases cut.len(),
{
    if cut.len() == 0 {
        envelopes.len() == 0
    } else {
        &&& envelopes.len() > 0
        &&& restores(j, d, cut.drop_last(), envelopes.drop_last())
        &&& forall|i: int| 0 <= i < cut.last().len() ==> (j.decode)(#[trigger] cut.last()[i]) is Some
        &&& given_back(j, inserted(j, d, flat(cut.drop_last())), cut.last()) == seq![
            envelopes.last(),
        ]
    }
}

/// The chunks of envelopes, one after the other.
pub open spec fn flat(cut: Seq<Seq<Seq<u8>>>) -> Seq<Seq<u8>>
    decreases cut.len(),
{
    if cut.len() == 0 {
        Seq::empty()
    } else {
        flat(cut.drop_last()) + cut.last()
    }
}

proof fn joining_goes_on<C, D>(j: Joiner<C, D>, d: D, a: Seq<Seq<u8>>, b: Seq<Seq<u8>>)
    ensures
        gathered(j, d, a + b) == gathered(j, gathered(j, d, a), b),
        outcomes(j, d, a + b) == outcomes(j, d, a) + outcomes(j, gathered(j, d, a), b),
    decreases b.len(),
{
    if b.len() == 0 {
        assert(a + b =~= a);
        assert(outcomes(j, d, a) + outcomes(j, gathered(j, d, a), b) =~= outcomes(j, d, a));
    } else {
        joining_goes_on(j, d, a, b.drop_last());
        assert((a + b).drop_last() =~= a + b.drop_last());
        assert((a + b).last() == b.last());
        assert(outcomes(j, d, a + b) =~= outcomes(j, d, a) + outcomes(j, gathered(j, d, a), b));
    }
}

/// Chunks that cannot be decoded are dropped without a trace: the records and what is there are
/// those of the other chunks.
pub proof fn only_decodable_chunks_count<C, D>(j: Joiner<C, D>, d: D, chunks: Seq<Seq<u8>>)
    ensures
        records(outcomes(j, d, chunks)) == records(outcomes(j, d, decodable(j, chunks))),
        gathered(j, d, chunks) == gathered(j, d, decodable(j, chunks)),
    decreases chunks.len(),
{
    if chunks.len() > 0 {
        let before = chunks.drop_last();
        only_decodable_chunks_count(j, d, before);
        let good = decodable(j, before);
        let out = joined(j, gathered(j, d, before), chunks.last()).1;
        assert(outcomes(j, d, before).push(out).drop_last() =~= outcomes(j, d, before));
        if (j.decode)(chunks.last()) is Some {
            assert(good.push(chunks.last()).drop_last() =~= good);
            assert(outcomes(j, d, good).push(out).drop_last() =~= outcomes(j, d, good));
        }
    }
}

proof fn what_is_given_back_is_recorded<C, D>(j: Joiner<C, D>, d: D, chunks: Seq<Seq<u8>>)
    requires
        forall|i: int| 0 <= i < chunks.len() ==> (j.decode)(#[trigger] chunks[i]) is Some,
    ensures
        gathered(j, d, chunks) == inserted(j, d, chunks),
        records(outcomes(j, d, chunks)) == given_back(j, d, chunks),
    decreases chunks.len(),
{
    if chunks.len() > 0 {
        let before = chunks.drop_last();
        assert forall|i: int| 0 <= i < before.len() implies (j.decode)(
            #[trigger] before[i],
        ) is Some by {
            assert(before[i] == chunks[i]);
        }
        what_is_given_back_is_recorded(j, d, before);
        assert((j.decode)(chunks[chunks.len() - 1]) is Some);
        let out = joined(j, gathered(j, d, before), chunks.last()).1;
        assert(outcomes(j, d, before).push(out).drop_last() =~= outcomes(j, d, before));
    }
}

proof fn inserting_goes_on<C, D>(j: Joiner<C, D>, d: D, a: Seq<Seq<u8>>, b: Seq<Seq<u8>>)
    ensures
        inserted(j, d, a + b) == inserted(j, inserted(j, d, a), b),
    decreases b.len(),
{
    if b.len() == 0 {
        assert(a + b =~= a);
    } else {
        inserting_goes_on(j, d, a, b.drop_last());
        assert((a + b).drop_last() =~= a + b.drop_last());
        assert((a + b).last() == b.last());
    }
}

proof fn restored_envelopes_are_the_records<C, D>(
    j: Joiner<C, D>,
    d: D,
    cut: Seq<Seq<Seq<u8>>>,
    envelopes: Seq<Vec<u8>>,
)
    requires
        restores(j, d, cut, envelopes),
    ensures
        gathered(j, d, flat(cut)) == inserted(j, d, flat(cut)),
        records(outcomes(j, d, flat(cut))) == envelopes,
    decreases cut.len(),
{
    if cut.len() == 0 {
        assert(records(outcomes(j, d, flat(cut))) =~= envelopes);
    } else {
        let before = flat(cut.drop_last());
        restored_envelopes_are_the_records(j, d, cut.drop_last(), envelopes.drop_last());
        what_is_given_back_is_recorded(j, inserted(j, d, before), cut.last());
        inserting_goes_on(j, d, before, cut.last());
        joining_goes_on(j, d, before, cut.last());
        records_come_in_order(
            outcomes(j, d, before),
            outcomes(j, gathered(j, d, before), cut.last()),
        );
        assert(envelopes.drop_last() + seq![envelopes.last()] =~= envelopes);
    }
}

/// Envelopes that were cut into chunks and written come back whole and in their order, whatever
/// frames that cannot be decoded stand between theirs, and whatever part of a further frame the
/// stream ends with; after them nothing more comes. As long as only the first chunks are in, the
/// first of the envelopes come and no part of another.
pub proof fn envelopes_come_back<C, D>(
    j: Joiner<C, D>,
    d: D,
    cut: Seq<Seq<Seq<u8>>>,
    envelopes: Seq<Vec<u8>>,
    written: Seq<Seq<u8>>,
    next: Seq<u8>,
    k: int,
)
    requires
        restores(j, d, cut, envelopes),
        decodable(j, written) == flat(cut),
        lengths_fit(written),
        next.len() < 4294967296,
        0 <= k < frame(next).len(),
    ensures
        records(outcomes(j, d, received(Awaiting::Length, wire(written)))) == envelopes,
        records(
            outcomes(j, d, received(Awaiting::Length, wire(written) + frame(next).take(k))),
        ) == envelopes,
        forall|m: int|
            0 <= m <= written.len() ==> records(
                #[trigger] outcomes(j, d, written.take(m)),
            ).is_prefix_of(envelopes),
{
    wire_reads_back(written);
    cut_frame_brings_nothing(written, next, k);
    only_decodable_chunks_count(j, d, written);
    restored_envelopes_are_the_records(j, d, cut, envelopes);
    assert forall|m: int| 0 <= m <= written.len() implies records(
        #[trigger] outcomes(j, d, written.take(m)),
    ).is_prefix_of(envelopes) by {
        let a = written.take(m);
        let b = written.skip(m);
        assert(a + b =~= written);
        joining_goes_on(j, d, a, b);
        records_come_in_order(outcomes(j, d, a), outcomes(j, gathered(j, d, a), b));
    }
}

/// A frame is the length of its chunk in four bytes, the most significant first, and the chunk.
pub proof fn a_frame_is_laid_out(chunk: Seq<u8>)
    requires
        chunk.len() < 4294967296,
    ensures
        frame(chunk).len() == chunk.len() + 4,
        frame(chunk)[0] * 16777216 + frame(chunk)[1] * 65536 + frame(chunk)[2] * 256 + frame(
            chunk,
        )[3] == chunk.len(),
        frame(chunk).skip(4) == chunk,
{
    crate::bytes::written_bytes_weigh_less_and_less(chunk.len() as int);
    assert(frame(chunk).skip(4) =~= chunk);
}

/// Four bytes are read first: they tell how many are read next, and those are the chunk.
pub proof fn a_length_is_read_and_then_a_chunk(a: u8, b: u8, c: u8, d: u8, n: int, chunk: Seq<u8>)
    ensures
        wanted(Awaiting::Length) == 4,
        read_on(Awaiting::Length, seq![a, b, c, d]) == (
            Awaiting::Chunk(a * 16777216 + b * 65536 + c * 256 + d),
            None::<Seq<u8>>,
        ),
        wanted(Awaiting::Chunk(n)) == n,
        read_on(Awaiting::Chunk(n), chunk) == (Awaiting::Length, Some(chunk)),
{
    crate::bytes::read_bytes_weigh_less_and_less(a, b, c, d, Seq::empty());
    assert(seq![a, b, c, d] + Seq::<u8>::empty() =~= seq![a, b, c, d]);
}

/// The bytes of vectors are those of each, in their order.
pub proof fn contents_are_what_the_vectors_hold(v: Seq<Vec<u8>>)
    ensures
        contents(v).len() == v.len(),
        forall|i: int| 0 <= i < v.len() ==> #[trigger] contents(v)[i] == v[i]@,
{
}

/// What has come in over a link.
#[derive(Debug)]
pub struct Inbound {
    frames: u64,
    decoded: u64,
    errs: u64,
    records: u64,
}

/// What has gone out over a link.
#[derive(Debug)]
pub struct Outbound {
    records: u64,
    frames: u64,
}

/// Counts of received frames: all, decoded, undecodable, and records that they completed.
#[verifier::ext_equal]
pub struct Tally {
    pub frames: int,
    pub decoded: int,
    pub errs: int,
    pub records: int,
}

impl View for Inbound {
    type V = Tally;

    closed spec fn view(&self) -> Tally {
        Tally {
            frames: self.frames as int,
            decoded: self.decoded as int,
            errs: self.errs as int,
            records: self.records as int,
        }
    }
}

impl Inbound {
    /// Every frame was either decoded or not, and a record takes a decoded frame.
    pub open spec fn wf(&self) -> bool {
        &&& self@.frames == self@.decoded + self@.errs
        &&& self@.records <= self@.decoded
        &&& 0 <= self@.records
        &&& 0 <= self@.errs
    }

    /// Nothing has come in.
    pub fn new() -> (x: Inbound)
        ensures
            x.wf(),
            x@ == (Tally { frames: 0, decoded: 0, errs: 0, records: 0 }),
    {
        Inbound { frames: 0, decoded: 0, errs: 0, records: 0 }
    }

    /// Counts a frame and hands on the record that it completed.
    pub fn on_frame(&mut self, outcome: Decoded) -> (record: Option<Vec<u8>>)
        requires
            old(self).wf(),
            old(self)@.frames < u64::MAX,
        ensures
            final(self).wf(),
            final(self)@ == (Tally {
                frames: old(self)@.frames + 1,
                decoded: old(self)@.decoded + (if outcome is Bad { 0int } else { 1int }),
                errs: old(self)@.errs + (if outcome is Bad { 1int } else { 0int }),
                records: old(self)@.records + (if outcome is Record { 1int } else { 0int }),
            }),
            record == completed(outcome),
    {
        self.frames = self.frames + 1;
        match &outcome {
            Decoded::Bad => {
                self.errs = self.errs + 1;
            },
            Decoded::Partial => {
                self.decoded = self.decoded + 1;
            },
            Decoded::Record(_) => {
                self.decoded = self.decoded + 1;
                self.records = self.records + 1;
            },
        }
        Transport::recv_envelope(outcome)
    }

    /// Frames received.
    pub fn frames(&self) -> (n: u64)
        ensures
            n == self@.frames,
    {
        self.frames
    }

    /// Frames decoded.
    pub fn decoded(&self) -> (n: u64)
        ensures
            n == self@.decoded,
    {
        self.decoded
    }

    /// Frames that could not be decoded.
    pub fn errs(&self) -> (n: u64)
        ensures
            n == self@.errs,
    {
        self.errs
    }

    /// Records completed.
    pub fn records(&self) -> (n: u64)
        ensures
            n == self@.records,
    {
        self.records
    }
}

impl View for Outbound {
    type V = (int, int);

    closed spec fn view(&self) -> (int, int) {
        (self.records as int, self.frames as int)
    }
}

impl Outbound {
    /// Nothing has gone out.
    pub fn new() -> (x: Outbound)
        ensures
            x@ == (0int, 0int),
    {
        Outbound { records: 0, frames: 0 }
    }

    /// Counts a record that was cut into chunks, and frames the chunks for writing.
    pub fn on_record(&mut self, chunks: &Vec<Vec<u8>>) -> (frames: Vec<Vec<u8>>)
        requires
            old(self)@.0 < u64::MAX,
            old(self)@.1 + chunks@.len() <= u64::MAX,
        ensures
            final(self)@ == (old(self)@.0 + 1, old(self)@.1 + chunks@.len()),
            contents(frames@) == contents(chunks@).map_values(|c: Seq<u8>| frame(c)),
    {
        self.records = self.records + 1;
        self.frames = self.frames + chunks.len() as u64;
        Transport::send_envelope(chunks)
    }

    /// Records sent.
    pub fn records(&self) -> (n: u64)
        ensures
            n == self@.0,
    {
        self.records
    }

    /// Frames sent.
    pub fn frames(&self) -> (n: u64)
        ensures
            n == self@.1,
    {
        self.frames
    }
}

} // verus!
