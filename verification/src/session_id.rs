//! Session ids: random UUIDs, and the path that a client posts to.

use crate::text::{
    hex_digits, hexadecimal_digits_spell_their_number, in_base, join, spelled,
};
use vstd::arithmetic::power::pow;
use vstd::prelude::*;

verus! {

/// Thirty-two hexadecimal digits in groups of 8, 4, 4, 4 and 12.
pub open spec fn hyphenated(d: Seq<char>) -> Seq<char> {
    d.subrange(0, 8) + seq!['-'] + d.subrange(8, 12) + seq!['-'] + d.subrange(12, 16) + seq!['-']
        + d.subrange(16, 20) + seq!['-'] + d.subrange(20, 32)
}

/// The text of the UUID with value `id`.
pub open spec fn uuid_digits(id: u128) -> Seq<char> {
    hyphenated(hex_digits(id as int, 32))
}

/// `uuid::Uuid::new_v4`: sixteen random bytes, read as a big-endian number, with version 4 in
/// bits 76 to 79 and variant 2 in bits 62 and 63. Nothing is said of the other bits: they are
/// random. The call panics where the system gives no random bytes.
#[verifier::external_body]
pub(crate) fn random_uuid() -> (id: u128)
    ensures
        id as int / 75557863725914323419136 % 16 == 4,
        id as int / 4611686018427387904 % 4 == 2,
{
    uuid::Uuid::new_v4().as_u128()
}

/// `Display` of `uuid::Uuid`: the lower-case hyphenated form of its value.
#[verifier::external_body]
fn uuid_text(id: u128) -> (r: String)
    ensures
        r@ == uuid_digits(id),
{
    uuid::Uuid::from_u128(id).to_string()
}

/// Where the client of session `id` posts its messages.
pub open spec fn session_path(id: u128) -> Seq<char> {
    "/messages?id="@ + uuid_digits(id)
}

/// Where the client of session `id` posts its messages.
pub fn endpoint(id: u128) -> (r: String)
    ensures
        r@ == session_path(id),
{
    join("/messages?id=", uuid_text(id).as_str())
}

proof fn as_many_digits(n: int, width: nat)
    ensures
        hex_digits(n, width).len() == width,
    decreases width,
{
    if width > 0 {
        as_many_digits(n / 16, (width - 1) as nat);
    }
}

proof fn digits_tell_numbers_apart(a: int, b: int, width: nat)
    requires
        0 <= a < pow(16, width),
        0 <= b < pow(16, width),
        hex_digits(a, width) == hex_digits(b, width),
    ensures
        a == b,
    decreases width,
{
    reveal(pow);
    if width > 0 {
        let w = (width - 1) as nat;
        let x = hex_digits(a / 16, w);
        let y = hex_digits(b / 16, w);
        as_many_digits(a / 16, w);
        as_many_digits(b / 16, w);
        let da = crate::text::digit(a % 16);
        let db = crate::text::digit(b % 16);
        assert(x.push(da).drop_last() =~= x);
        assert(y.push(db).drop_last() =~= y);
        assert(x.push(da).last() == da);
        assert(y.push(db).last() == db);
        assert(a % 16 == b % 16);
        assert(pow(16, width) == 16 * pow(16, w));
        digits_tell_numbers_apart(a / 16, b / 16, w);
    }
}

/// No two sessions are posted to at the same path.
pub proof fn paths_tell_sessions_apart(a: u128, b: u128)
    ensures
        session_path(a) == session_path(b) ==> a == b,
{
    if session_path(a) == session_path(b) {
        let da = hex_digits(a as int, 32);
        let db = hex_digits(b as int, 32);
        let p = "/messages?id="@;
        as_many_digits(a as int, 32);
        as_many_digits(b as int, 32);
        assert(session_path(a).skip(p.len() as int) =~= hyphenated(da));
        assert(session_path(b).skip(p.len() as int) =~= hyphenated(db));
        let ha = hyphenated(da);
        let hb = hyphenated(db);
        assert(da =~= ha.subrange(0, 8) + ha.subrange(9, 13) + ha.subrange(14, 18) + ha.subrange(
            19,
            23,
        ) + ha.subrange(24, 36));
        assert(db =~= hb.subrange(0, 8) + hb.subrange(9, 13) + hb.subrange(14, 18) + hb.subrange(
            19,
            23,
        ) + hb.subrange(24, 36));
        assert(pow(16, 32) == 340282366920938463463374607431768211456) by {
            reveal_with_fuel(pow, 33);
        }
        digits_tell_numbers_apart(a as int, b as int, 32);
    }
}

/// The path of a session is a fixed beginning and the id in thirty-six characters: hexadecimal
/// digits that spell it, with hyphens behind the eighth, the twelfth, the sixteenth and the
/// twentieth.
pub proof fn a_path_spells_its_session(id: u128)
    ensures
        ({
            let before = "/messages?id="@;
            let t = session_path(id).skip(before.len() as int);
            let digits = t.take(8) + t.subrange(9, 13) + t.subrange(14, 18) + t.subrange(19, 23)
                + t.skip(24);
            &&& session_path(id) == before + t
            &&& t.len() == 36
            &&& t[8] == '-' && t[13] == '-' && t[18] == '-' && t[23] == '-'
            &&& in_base(digits, 16)
            &&& spelled(digits, 16) == id
        }),
{
    let d = hex_digits(id as int, 32);
    hexadecimal_digits_spell_their_number(id as int, 32);
    assert(pow(16, 32) == 340282366920938463463374607431768211456) by {
        reveal_with_fuel(pow, 33);
    }
    let before = "/messages?id="@;
    let t = session_path(id).skip(before.len() as int);
    assert(t =~= hyphenated(d));
    assert(t.take(8) + t.subrange(9, 13) + t.subrange(14, 18) + t.subrange(19, 23) + t.skip(24)
        =~= d);
}

} // verus!
