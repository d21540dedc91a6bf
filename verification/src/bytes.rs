//! Big-endian integers and byte vectors.

use vstd::prelude::*;

verus! {

/// The two bytes of `n`, most significant first; bits above the sixteenth are dropped.
pub open spec fn be16(n: int) -> Seq<u8> {
    seq![(n / 256 % 256) as u8, (n % 256) as u8]
}

/// The four bytes of `n`, most significant first; bits above the thirty-second are dropped.
pub open spec fn be32(n: int) -> Seq<u8> {
    seq![
        (n / 16777216 % 256) as u8,
        (n / 65536 % 256) as u8,
        (n / 256 % 256) as u8,
        (n % 256) as u8,
    ]
}

/// The number that the first two bytes of `s` spell, most significant first.
pub open spec fn from_be16(s: Seq<u8>) -> int {
    s[0] * 256 + s[1]
}

/// The number that the first four bytes of `s` spell, most significant first.
pub open spec fn from_be32(s: Seq<u8>) -> int {
    s[0] * 16777216 + s[1] * 65536 + s[2] * 256 + s[3]
}

/// Reading back a written sixteen-bit number gives the number.
pub proof fn be16_reads_back(n: int)
    requires
        0 <= n < 65536,
    ensures
        from_be16(be16(n)) == n,
{
}

/// Reading back a written thirty-two-bit number gives the number.
pub proof fn be32_reads_back(n: int)
    requires
        0 <= n < 4294967296,
    ensures
        from_be32(be32(n)) == n,
{
}

/// Writing back four bytes that were read gives the same bytes.
pub proof fn be32_writes_back(s: Seq<u8>)
    requires
        s.len() == 4,
    ensures
        be32(from_be32(s)) == s,
{
    let n = from_be32(s);
    assert(n / 16777216 % 256 == s[0]);
    assert(n / 65536 % 256 == s[1]);
    assert(n / 256 % 256 == s[2]);
    assert(be32(n) =~= s);
}

/// The byte of `n` at `unit`, a power of 256 below the thirty-third bit, does not depend on the
/// bits above the thirty-second.
proof fn low_byte(n: int, unit: int, above: int)
    requires
        0 <= n,
        0 < unit,
        unit * above == 4294967296,
        above % 256 == 0,
        0 < above,
    ensures
        (n % 4294967296) / unit % 256 == n / unit % 256,
{
    let q = n / 4294967296;
    let r = n % 4294967296;
    let a = r / unit;
    let b = r % unit;
    let k = above / 256;
    vstd::arithmetic::div_mod::lemma_fundamental_div_mod(r, unit);
    assert(n == (q * above + a) * unit + b) by (nonlinear_arith)
        requires
            n == q * 4294967296 + r,
            unit * above == 4294967296,
            r == unit * a + b,
    ;
    vstd::arithmetic::div_mod::lemma_fundamental_div_mod_converse(n, unit, q * above + a, b);
    assert(q * above + a == 256 * (q * k) + a) by (nonlinear_arith)
        requires
            above == 256 * k,
    ;
    vstd::arithmetic::div_mod::lemma_mod_multiples_vanish(q * k, a, 256);
}

/// Bits above the thirty-second do not show in the four bytes.
pub proof fn be32_keeps_low_bits(n: int)
    requires
        0 <= n,
    ensures
        be32(n % 4294967296) == be32(n),
{
    low_byte(n, 16777216, 256);
    low_byte(n, 65536, 65536);
    low_byte(n, 256, 16777216);
    low_byte(n, 1, 4294967296);
    assert(n / 1 == n && (n % 4294967296) / 1 == n % 4294967296);
}

/// The first byte of a written number weighs most, and each further one 256 times less.
pub proof fn written_bytes_weigh_less_and_less(n: int)
    requires
        0 <= n,
    ensures
        be16(n).len() == 2,
        be16(n)[0] * 256 + be16(n)[1] == n % 65536,
        be32(n).len() == 4,
        be32(n)[0] * 16777216 + be32(n)[1] * 65536 + be32(n)[2] * 256 + be32(n)[3] == n
            % 4294967296,
{
}

/// The first byte of a number that is read weighs most, and each further one 256 times less.
pub proof fn read_bytes_weigh_less_and_less(a: u8, b: u8, c: u8, d: u8, rest: Seq<u8>)
    ensures
        from_be16(seq![a, b] + rest) == a * 256 + b,
        from_be32(seq![a, b, c, d] + rest) == a * 16777216 + b * 65536 + c * 256 + d,
{
}

/// The big-endian bytes of a `u16`.
pub fn to_be16(n: u16) -> (b: [u8; 2])
    ensures
        b@ == be16(n as int),
{
    let b: [u8; 2] = [(n / 256) as u8, (n % 256) as u8];
    assert(b@ =~= be16(n as int));
    b
}

/// The big-endian bytes of a `u32`.
pub fn to_be32(n: u32) -> (b: [u8; 4])
    ensures
        b@ == be32(n as int),
{
    let b: [u8; 4] = [
        (n / 16777216) as u8,
        (n / 65536 % 256) as u8,
        (n / 256 % 256) as u8,
        (n % 256) as u8,
    ];
    assert(b@ =~= be32(n as int));
    b
}

/// The `u16` that two big-endian bytes spell.
pub fn read_be16(high: u8, low: u8) -> (n: u16)
    ensures
        n == from_be16(seq![high, low]),
{
    high as u16 * 256 + low as u16
}

/// The `u32` that the first four bytes spell in big-endian order.
pub fn read_be32(s: &[u8]) -> (n: u32)
    requires
        s@.len() >= 4,
    ensures
        n == from_be32(s@),
{
    s[0] as u32 * 16777216 + s[1] as u32 * 65536 + s[2] as u32 * 256 + s[3] as u32
}

/// Appends a slice to a byte vector.
pub(crate) fn put(v: &mut Vec<u8>, s: &[u8])
    ensures
        final(v)@ == old(v)@ + s@,
{
    v.extend_from_slice(s);
    assert(v@ =~= old(v)@ + s@);
}

} // verus!
