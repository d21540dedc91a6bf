//! Text: the few formats and cuts that messages, tokens and paths need.

use vstd::arithmetic::power::pow;
use vstd::prelude::*;
use vstd::string::StrSliceExecFns;
use vstd::string::StringExecFns;

verus! {

/// `String::push` appends one character.
pub assume_specification[ String::push ](s: &mut String, c: char)
    ensures
        final(s)@ == old(s)@.push(c),
;

/// The characters with the Unicode property White_Space.
pub open spec fn white_space(c: char) -> bool {
    let n = c as int;
    ||| 9 <= n <= 13
    ||| n == 0x20
    ||| n == 0x85
    ||| n == 0xa0
    ||| n == 0x1680
    ||| 0x2000 <= n <= 0x200a
    ||| n == 0x2028
    ||| n == 0x2029
    ||| n == 0x202f
    ||| n == 0x205f
    ||| n == 0x3000
}

/// `char::is_whitespace` holds of the characters with the Unicode property White_Space.
pub assume_specification[ char::is_whitespace ](c: char) -> (b: bool)
    ensures
        b == white_space(c),
;

/// The text that std's `Debug` gives for a string: quoted, with escapes.
pub uninterp spec fn quoted(s: Seq<char>) -> Seq<char>;

/// std's `Debug` for `str`, through `format`: the result depends on the string alone. Which
/// characters are escaped, and how, is left to std.
#[verifier::external_body]
pub(crate) fn quote(s: &str) -> (r: String)
    ensures
        r@ == quoted(s@),
{
    format!("{s:?}")
}

/// Whether two strings hold the same characters.
pub(crate) fn same(a: &str, b: &str) -> (r: bool)
    ensures
        r == (a@ == b@),
{
    a.to_owned() == b.to_owned()
}

/// The first text followed by the second.
pub(crate) fn join(a: &str, b: &str) -> (r: String)
    ensures
        r@ == a@ + b@,
{
    let mut r: String = a.to_owned();
    r.append(b);
    r
}

/// The lower-case digit of `d`, for `d` below sixteen.
pub open spec fn digit(d: int) -> char {
    if d < 10 {
        (48 + d) as char
    } else {
        (87 + d) as char
    }
}

/// The last `width` lower-case hexadecimal digits of `n`, with leading zeros.
pub open spec fn hex_digits(n: int, width: nat) -> Seq<char>
    decreases width,
{
    if width == 0 {
        Seq::empty()
    } else {
        hex_digits(n / 16, (width - 1) as nat).push(digit(n % 16))
    }
}

/// `n` in decimal, without leading zeros.
pub open spec fn decimal_digits(n: nat) -> Seq<char>
    decreases n,
{
    if n < 10 {
        seq![digit(n as int)]
    } else {
        decimal_digits(n / 10).push(digit((n % 10) as int))
    }
}

/// The lower-case digit of `d`.
fn digit_char(d: u8) -> (c: char)
    requires
        d < 16,
    ensures
        c == digit(d as int),
{
    if d < 10 {
        (48 + d) as char
    } else {
        (87 + d) as char
    }
}

/// The last `width` hexadecimal digits of `n`, with leading zeros.
pub fn hex(n: u128, width: usize) -> (r: String)
    ensures
        r@ == hex_digits(n as int, width as nat),
    decreases width,
{
    if width == 0 {
        String::new()
    } else {
        let mut r: String = hex(n / 16, width - 1);
        r.push(digit_char((n % 16) as u8));
        r
    }
}

/// `n` in decimal.
pub fn decimal(n: u128) -> (r: String)
    ensures
        r@ == decimal_digits(n as nat),
    decreases n,
{
    if n < 10 {
        let mut r: String = String::new();
        r.push(digit_char(n as u8));
        assert(r@ =~= decimal_digits(n as nat));
        r
    } else {
        let mut r: String = decimal(n / 10);
        r.push(digit_char((n % 10) as u8));
        r
    }
}

/// `s` without the white space at its two ends.
pub open spec fn trimmed(s: Seq<char>) -> Seq<char>
    decreases s.len(),
{
    if s.len() == 0 {
        s
    } else if white_space(s[0]) {
        trimmed(s.skip(1))
    } else if white_space(s.last()) {
        trimmed(s.drop_last())
    } else {
        s
    }
}

/// What follows the last `mark` in `s`, or all of `s` where there is none.
pub open spec fn after_last(s: Seq<char>, mark: char) -> Seq<char>
    decreases s.len(),
{
    if s.len() == 0 {
        s
    } else if s.last() == mark {
        Seq::empty()
    } else {
        after_last(s.drop_last(), mark).push(s.last())
    }
}

/// `s` without the white space at its two ends.
pub fn trim(s: &str) -> (r: &str)
    ensures
        r@ == trimmed(s@),
{
    let mut start: usize = 0;
    let mut end: usize = s.unicode_len();
    assert(s@.subrange(0, end as int) =~= s@);
    while start < end && s.get_char(start).is_whitespace()
        invariant
            start <= end <= s@.len(),
            trimmed(s@.subrange(start as int, end as int)) == trimmed(s@),
        ensures
            start <= end <= s@.len(),
            trimmed(s@.subrange(start as int, end as int)) == trimmed(s@),
            start < end ==> !white_space(s@[start as int]),
        decreases end - start,
    {
        assert(s@.subrange(start as int, end as int).skip(1) =~= s@.subrange(
            start + 1,
            end as int,
        ));
        start += 1;
    }
    while start < end && s.get_char(end - 1).is_whitespace()
        invariant
            start <= end <= s@.len(),
            trimmed(s@.subrange(start as int, end as int)) == trimmed(s@),
            start < end ==> !white_space(s@[start as int]),
        ensures
            start <= end <= s@.len(),
            trimmed(s@.subrange(start as int, end as int)) == trimmed(s@),
            start < end ==> !white_space(s@[start as int]),
            start < end ==> !white_space(s@[end - 1]),
        decreases end - start,
    {
        assert(s@.subrange(start as int, end as int).drop_last() =~= s@.subrange(
            start as int,
            end - 1,
        ));
        end -= 1;
    }
    s.substring_char(start, end)
}

/// The end of `s` from `k` on follows its last `mark` where no later character is one.
proof fn after_last_is(s: Seq<char>, mark: char, k: int)
    requires
        0 <= k <= s.len(),
        k == 0 || s[k - 1] == mark,
        forall|i: int| k <= i < s.len() ==> s[i] != mark,
    ensures
        after_last(s, mark) == s.skip(k),
    decreases s.len(),
{
    if s.len() > 0 && k < s.len() {
        after_last_is(s.drop_last(), mark, k);
        assert(s.drop_last().skip(k).push(s.last()) =~= s.skip(k));
    } else {
        assert(after_last(s, mark) =~= s.skip(k));
    }
}

/// What follows the last `mark`, or the whole text.
pub fn last_part(s: &str, mark: char) -> (r: &str)
    ensures
        r@ == after_last(s@, mark),
{
    let len: usize = s.unicode_len();
    let mut k: usize = len;
    while k > 0 && s.get_char(k - 1) != mark
        invariant
            k <= len,
            len == s@.len(),
            forall|i: int| k <= i < len ==> s@[i] != mark,
        ensures
            k <= len,
            forall|i: int| k <= i < len ==> s@[i] != mark,
            k == 0 || s@[k - 1] == mark,
        decreases k,
    {
        k -= 1;
    }
    proof {
        after_last_is(s@, mark, k as int);
        assert(s@.skip(k as int) =~= s@.subrange(k as int, len as int));
    }
    s.substring_char(k, len)
}

/// What comes before a `mark` does not change what follows the last one.
pub proof fn after_last_skips_prefix(before: Seq<char>, mark: char, rest: Seq<char>)
    ensures
        after_last(before.push(mark) + rest, mark) == after_last(rest, mark),
    decreases rest.len(),
{
    let s = before.push(mark) + rest;
    if rest.len() == 0 {
        assert(s.last() == mark);
        assert(after_last(s, mark) =~= after_last(rest, mark));
    } else {
        assert(s.last() == rest.last());
        assert(s.drop_last() =~= before.push(mark) + rest.drop_last());
        after_last_skips_prefix(before, mark, rest.drop_last());
    }
}

/// What a lower-case digit stands for; nothing else stands for a number.
pub open spec fn digit_value(c: char) -> int {
    if '0' <= c <= '9' {
        c as int - '0' as int
    } else if 'a' <= c <= 'f' {
        c as int - 'a' as int + 10
    } else {
        -1
    }
}

/// What digits spell in a base.
pub open spec fn spelled(s: Seq<char>, base: int) -> int
    decreases s.len(),
{
    if s.len() == 0 {
        0
    } else {
        base * spelled(s.drop_last(), base) + digit_value(s.last())
    }
}

/// Whether a text is made of digits of a base.
pub open spec fn in_base(s: Seq<char>, base: int) -> bool {
    forall|i: int| 0 <= i < s.len() ==> 0 <= digit_value(#[trigger] s[i]) < base
}

/// Hexadecimal digits are as many as were asked for, and spell what fits in them.
pub proof fn hexadecimal_digits_spell_their_number(n: int, width: nat)
    requires
        0 <= n,
    ensures
        hex_digits(n, width).len() == width,
        in_base(hex_digits(n, width), 16),
        spelled(hex_digits(n, width), 16) == n % pow(16, width),
    decreases width,
{
    reveal(pow);
    let all = hex_digits(n, width);
    if width == 0 {
        assert(n % 1 == 0);
    } else {
        let w = (width - 1) as nat;
        let q = n / 16;
        hexadecimal_digits_spell_their_number(q, w);
        let front = hex_digits(q, w);
        assert(all.drop_last() =~= front);
        assert(all.last() == digit(n % 16));
        assert(digit_value(digit(n % 16)) == n % 16);
        assert forall|i: int| 0 <= i < all.len() implies 0 <= digit_value(#[trigger] all[i])
            < 16 by {
            if i < front.len() {
                assert(all[i] == front[i]);
            }
        }
        let p = pow(16, w);
        vstd::arithmetic::power::lemma_pow_positive(16, w);
        assert(n % (16 * p) == 16 * (q % p) + n % 16) by {
            vstd::arithmetic::div_mod::lemma_mod_breakdown(n, 16, p);
        }
    }
}

/// Decimal digits spell their number, without zeros in front.
pub proof fn decimal_digits_spell_their_number(n: nat)
    ensures
        decimal_digits(n).len() >= 1,
        in_base(decimal_digits(n), 10),
        spelled(decimal_digits(n), 10) == n,
        decimal_digits(n)[0] == '0' ==> n == 0,
        n < 10 ==> decimal_digits(n).len() == 1,
    decreases n,
{
    let all = decimal_digits(n);
    if n < 10 {
        assert(all.last() == digit(n as int));
        assert(all.drop_last() =~= Seq::empty());
        assert(spelled(all.drop_last(), 10) == 0);
    } else {
        let front = decimal_digits(n / 10);
        decimal_digits_spell_their_number(n / 10);
        assert(all.drop_last() =~= front);
        assert(all.last() == digit((n % 10) as int));
        assert forall|i: int| 0 <= i < all.len() implies 0 <= digit_value(#[trigger] all[i])
            < 10 by {
            if i < front.len() {
                assert(all[i] == front[i]);
            }
        }
        assert(all[0] == front[0]);
    }
}

/// Whether a text is made of white space.
pub open spec fn all_white(s: Seq<char>) -> bool {
    forall|i: int| 0 <= i < s.len() ==> white_space(#[trigger] s[i])
}

/// Trimming takes the white space in front and behind, and nothing else.
pub proof fn trimming_takes_the_ends(a: Seq<char>, middle: Seq<char>, b: Seq<char>)
    requires
        all_white(a),
        all_white(b),
        middle.len() > 0 ==> !white_space(middle[0]) && !white_space(middle.last()),
    ensures
        trimmed(a + middle + b) == middle,
    decreases a.len() + b.len(),
{
    let s = a + middle + b;
    if a.len() > 0 {
        assert(white_space(a[0]));
        assert(s[0] == a[0]);
        let rest = a.skip(1);
        assert forall|i: int| 0 <= i < rest.len() implies white_space(#[trigger] rest[i]) by {
            assert(rest[i] == a[i + 1]);
        }
        trimming_takes_the_ends(rest, middle, b);
        assert(s.skip(1) =~= rest + middle + b);
    } else if middle.len() == 0 {
        if b.len() > 0 {
            assert(white_space(b[0]));
            assert(s[0] == b[0]);
            let rest = b.skip(1);
            assert forall|i: int| 0 <= i < rest.len() implies white_space(#[trigger] rest[i]) by {
                assert(rest[i] == b[i + 1]);
            }
            trimming_takes_the_ends(a, middle, rest);
            assert(s.skip(1) =~= a + middle + rest);
        } else {
            assert(s =~= middle);
        }
    } else {
        assert(s[0] == middle[0]);
        if b.len() > 0 {
            assert(white_space(b[b.len() - 1]));
            assert(s.last() == b.last());
            let rest = b.drop_last();
            assert forall|i: int| 0 <= i < rest.len() implies white_space(#[trigger] rest[i]) by {
                assert(rest[i] == b[i]);
            }
            trimming_takes_the_ends(a, middle, rest);
            assert(s.drop_last() =~= a + middle + rest);
        } else {
            assert(s =~= middle);
        }
    }
}

/// What follows the last mark is all that has no mark in it, up to the end.
pub proof fn the_last_part_has_no_mark(before: Seq<char>, mark: char, rest: Seq<char>)
    requires
        forall|i: int| 0 <= i < rest.len() ==> rest[i] != mark,
    ensures
        after_last(rest, mark) == rest,
        after_last(before.push(mark) + rest, mark) == rest,
{
    after_last_is(rest, mark, 0);
    assert(rest.skip(0) =~= rest);
    after_last_skips_prefix(before, mark, rest);
}

} // verus!
