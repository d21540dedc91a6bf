//! What a user hands over to pair: the token of the device's pairing code, and the device
//! identity in hexadecimal.

use crate::text::{
    after_last, all_white, digit, last_part, the_last_part_has_no_mark, trim, trimmed,
    trimming_takes_the_ends, white_space,
};
use vstd::prelude::*;
use vstd::utf8::encode_utf8;

verus! {

/// A hexadecimal digit of either case.
pub open spec fn is_hex(b: u8) -> bool {
    48 <= b <= 57 || 65 <= b <= 70 || 97 <= b <= 102
}

/// The value of a hexadecimal digit.
pub open spec fn hex_value(b: u8) -> int {
    if b <= 57 {
        b - 48
    } else if b <= 70 {
        b - 55
    } else {
        b - 87
    }
}

/// Whether every byte of `s` is a hexadecimal digit.
pub open spec fn all_hex(s: Seq<u8>) -> bool {
    forall|i: int| 0 <= i < s.len() ==> is_hex(#[trigger] s[i])
}

/// The bytes that pairs of digits spell.
pub open spec fn hex_bytes(s: Seq<u8>) -> Seq<u8> {
    Seq::new(
        s.len() / 2,
        |k: int| (16 * hex_value(s[2 * k]) + hex_value(s[2 * k + 1])) as u8,
    )
}

/// Why a text is not hexadecimal.
#[derive(Debug, Clone, Copy, PartialEq, Eq, Structural)]
pub enum HexError {
    /// The byte at `index`, read as the character `c`, is no digit; all before it are.
    InvalidHexCharacter { c: char, index: usize },
    /// The number of digits is odd.
    OddLength,
    /// The text does not fill a container of fixed size.
    InvalidStringLength,
}

/// What decoding `s` gives.
pub open spec fn decoded(s: Seq<u8>, r: Result<Seq<u8>, HexError>) -> bool {
    match r {
        Ok(bytes) => s.len() % 2 == 0 && all_hex(s) && bytes == hex_bytes(s),
        Err(HexError::OddLength) => s.len() % 2 == 1,
        Err(HexError::InvalidHexCharacter { c, index }) => {
            &&& s.len() % 2 == 0
            &&& index < s.len()
            &&& all_hex(s.take(index as int))
            &&& !is_hex(s[index as int])
            &&& c == s[index as int] as char
        },
        Err(HexError::InvalidStringLength) => false,
    }
}

/// A result with its bytes as a sequence.
pub open spec fn seen<E>(r: Result<Vec<u8>, E>) -> Result<Seq<u8>, E> {
    match r {
        Ok(bytes) => Ok(bytes@),
        Err(e) => Err(e),
    }
}

/// `hex::decode` on bytes: an odd number of them is refused first, then the first one that is no
/// digit; otherwise each pair of digits spells one byte of the result.
#[verifier::external_body]
fn decode_hex(s: &[u8]) -> (r: Result<Vec<u8>, HexError>)
    ensures
        decoded(s@, seen(r)),
{
    match hex::decode(s) {
        Ok(bytes) => Ok(bytes),
        Err(hex::FromHexError::InvalidHexCharacter { c, index }) => {
            Err(HexError::InvalidHexCharacter { c, index })
        },
        Err(hex::FromHexError::OddLength) => Err(HexError::OddLength),
        Err(hex::FromHexError::InvalidStringLength) => Err(HexError::InvalidStringLength),
    }
}

/// Why a pairing token was refused.
#[derive(Debug, PartialEq, Eq)]
pub enum TokenError {
    /// The token is not hexadecimal.
    NotHex(HexError),
    /// The token has another number of bytes than a pairing token.
    WrongSize { expected: usize, got: usize },
}

/// The text of the token in what the user gave: the part after the last colon, trimmed.
pub open spec fn token_text(raw: Seq<char>) -> Seq<char> {
    trimmed(after_last(raw, ':'))
}

/// What parsing `raw` as a token of `size` bytes gives.
pub open spec fn token_of(raw: Seq<char>, size: usize, r: Result<Seq<u8>, TokenError>) -> bool {
    let digits = encode_utf8(token_text(raw));
    match r {
        Ok(bytes) => decoded(digits, Ok(bytes)) && bytes.len() == size,
        Err(TokenError::NotHex(e)) => decoded(digits, Err(e)),
        Err(TokenError::WrongSize { expected, got }) => {
            &&& decoded(digits, Ok(hex_bytes(digits)))
            &&& expected == size
            &&& got == hex_bytes(digits).len()
            &&& got != size
        },
    }
}

/// Whether `raw` holds a pairing token of `size` bytes: hexadecimal digits, two for each byte and
/// none besides.
pub open spec fn is_token(raw: Seq<char>, size: usize) -> bool {
    let digits = encode_utf8(token_text(raw));
    digits.len() == 2 * size && all_hex(digits)
}

/// The bytes of the pairing token that `raw` holds.
pub open spec fn token_bytes(raw: Seq<char>) -> Seq<u8> {
    hex_bytes(encode_utf8(token_text(raw)))
}

/// Reads a pairing token of `size` bytes, or says why there is none. Either the bare hexadecimal
/// token is accepted or the whole pairing code `12:34:56:78:9A:BC:<token>`.
pub fn read_token(raw: &str, size: usize) -> (r: Result<Vec<u8>, TokenError>)
    ensures
        token_of(raw@, size, seen(r)),
        r is Ok <==> is_token(raw@, size),
        r matches Ok(bytes) ==> bytes@ == token_bytes(raw@),
{
    let part: &str = trim(last_part(raw, ':'));
    match decode_hex(part.as_bytes()) {
        Ok(bytes) => {
            let got: usize = bytes.len();
            if got == size {
                Ok(bytes)
            } else {
                Err(TokenError::WrongSize { expected: size, got })
            }
        },
        Err(e) => Err(TokenError::NotHex(e)),
    }
}

/// Parses a pairing token of `size` bytes out of a text that holds one.
pub fn parse_token(raw: &str, size: usize) -> (bytes: Vec<u8>)
    requires
        is_token(raw@, size),
    ensures
        bytes@ == token_bytes(raw@),
        bytes@.len() == size,
{
    read_token(raw, size).unwrap()
}

/// Decodes the hexadecimal form of a device identity document, which may stand between white
/// space.
pub fn device_xid_bytes(text: &str) -> (r: Result<Vec<u8>, HexError>)
    ensures
        decoded(encode_utf8(trimmed(text@)), seen(r)),
{
    decode_hex(trim(text).as_bytes())
}

/// Decoding has one result only.
pub proof fn decoding_is_unique(
    s: Seq<u8>,
    a: Result<Seq<u8>, HexError>,
    b: Result<Seq<u8>, HexError>,
)
    requires
        decoded(s, a),
        decoded(s, b),
    ensures
        a == b,
{
    if let Err(HexError::InvalidHexCharacter { c: c1, index: i }) = a {
        if let Err(HexError::InvalidHexCharacter { c: c2, index: j }) = b {
            if i < j {
                assert(is_hex(s.take(j as int)[i as int]));
            }
            if j < i {
                assert(is_hex(s.take(i as int)[j as int]));
            }
        } else {
            assert(b is Ok ==> is_hex(s[i as int]));
        }
    } else if let Err(HexError::InvalidHexCharacter { c, index }) = b {
        assert(a is Ok ==> is_hex(s[index as int]));
    }
}

/// The whole pairing code and the bare token that it ends with parse alike.
pub proof fn pairing_code_parses_as_its_token(
    before: Seq<char>,
    token: Seq<char>,
    size: usize,
    r: Result<Seq<u8>, TokenError>,
)
    ensures
        token_of(before.push(':') + token, size, r) <==> token_of(token, size, r),
{
    crate::text::after_last_skips_prefix(before, ':', token);
}

/// The lower-case digits of `bytes`, two for each.
pub open spec fn hex_text(bytes: Seq<u8>) -> Seq<u8> {
    Seq::new(
        2 * bytes.len(),
        |i: int|
            digit(
                if i % 2 == 0 {
                    bytes[i / 2] as int / 16
                } else {
                    bytes[i / 2] as int % 16
                },
            ) as u8,
    )
}

/// Every byte string has a hexadecimal text, and decoding that text gives it back.
pub proof fn hex_text_decodes(bytes: Seq<u8>)
    ensures
        decoded(hex_text(bytes), Ok(bytes)),
{
    let s = hex_text(bytes);
    assert forall|i: int| 0 <= i < s.len() implies is_hex(#[trigger] s[i]) by {
        let d = if i % 2 == 0 {
            bytes[i / 2] as int / 16
        } else {
            bytes[i / 2] as int % 16
        };
        assert(0 <= d < 16);
    }
    assert(hex_bytes(s) =~= bytes) by {
        assert forall|k: int| 0 <= k < bytes.len() implies hex_bytes(s)[k] == bytes[k] by {
            let b = bytes[k] as int;
            assert((2 * k) / 2 == k && (2 * k) % 2 == 0);
            assert((2 * k + 1) / 2 == k && (2 * k + 1) % 2 == 1);
            assert(hex_value(s[2 * k]) == b / 16);
            assert(hex_value(s[2 * k + 1]) == b % 16);
        }
    }
}

/// The lower-case digits of `bytes` as a text.
pub open spec fn hex_chars(bytes: Seq<u8>) -> Seq<char> {
    Seq::new(hex_text(bytes).len(), |i: int| hex_text(bytes)[i] as char)
}

/// A text without `mark` is what follows its last `mark`.
proof fn nothing_is_cut(s: Seq<char>, mark: char)
    requires
        forall|i: int| 0 <= i < s.len() ==> s[i] != mark,
    ensures
        after_last(s, mark) == s,
    decreases s.len(),
{
    if s.len() > 0 {
        nothing_is_cut(s.drop_last(), mark);
        assert(s.drop_last().push(s.last()) =~= s);
    }
}

/// A token that is written in hexadecimal parses as itself, bare or behind a colon.
pub proof fn a_written_token_parses(bytes: Seq<u8>, before: Seq<char>, size: usize)
    requires
        bytes.len() == size,
    ensures
        is_token(hex_chars(bytes), size),
        token_bytes(hex_chars(bytes)) == bytes,
        is_token(before.push(':') + hex_chars(bytes), size),
        token_bytes(before.push(':') + hex_chars(bytes)) == bytes,
{
    let text = hex_chars(bytes);
    let digits = hex_text(bytes);
    hex_text_decodes(bytes);
    assert forall|i: int| 0 <= i < text.len() implies is_hex(#[trigger] text[i] as u8) && (text[i] as int)
        < 128 by {
        assert(is_hex(digits[i]));
    }
    assert forall|i: int| 0 <= i < text.len() implies #[trigger] text[i] != ':' && !white_space(
        text[i],
    ) by {
        assert(is_hex(digits[i]));
    }
    nothing_is_cut(text, ':');
    assert(trimmed(text) == text);
    assert(vstd::utf8::is_ascii_chars(text));
    vstd::utf8::is_ascii_chars_encode_utf8(text);
    assert(encode_utf8(text) =~= digits);
    crate::text::after_last_skips_prefix(before, ':', text);
}

/// Whether a character is a hexadecimal digit for `v`, in either case.
pub open spec fn digit_for(c: char, v: int) -> bool {
    ||| '0' <= c <= '9' && c as int - '0' as int == v
    ||| 'a' <= c <= 'f' && c as int - 'a' as int + 10 == v
    ||| 'A' <= c <= 'F' && c as int - 'A' as int + 10 == v
}

/// Whether two characters spell byte number `k`, its upper half first.
pub open spec fn spells_byte(text: Seq<char>, bytes: Seq<u8>, k: int) -> bool {
    digit_for(text[2 * k], bytes[k] as int / 16) && digit_for(
        text[2 * k + 1],
        bytes[k] as int % 16,
    )
}

/// Whether a text spells bytes in hexadecimal, two digits for each, of either case.
pub open spec fn spells(text: Seq<char>, bytes: Seq<u8>) -> bool {
    &&& text.len() == 2 * bytes.len()
    &&& forall|k: int| 0 <= k < bytes.len() ==> #[trigger] spells_byte(text, bytes, k)
}

/// A text that spells bytes is made of hexadecimal digits that decode to them.
proof fn spelling_decodes(text: Seq<char>, bytes: Seq<u8>)
    requires
        spells(text, bytes),
    ensures
        encode_utf8(text).len() == 2 * bytes.len(),
        all_hex(encode_utf8(text)),
        hex_bytes(encode_utf8(text)) == bytes,
        forall|i: int|
            0 <= i < text.len() ==> #[trigger] text[i] != ':' && !white_space(text[i]),
{
    assert forall|i: int| 0 <= i < text.len() implies {
        &&& (#[trigger] text[i]) != ':'
        &&& '\0' <= text[i] <= '\u{7f}'
        &&& is_hex(text[i] as u8)
        &&& !white_space(text[i])
    } by {
        let k = i / 2;
        assert(spells_byte(text, bytes, k));
        assert(i == 2 * k || i == 2 * k + 1);
    }
    assert(vstd::utf8::is_ascii_chars(text));
    vstd::utf8::is_ascii_chars_encode_utf8(text);
    let s = encode_utf8(text);
    assert forall|i: int| 0 <= i < s.len() implies is_hex(#[trigger] s[i]) by {
        assert(s[i] == text[i] as u8);
    }
    assert forall|k: int| 0 <= k < bytes.len() implies #[trigger] hex_bytes(s)[k] == bytes[k] by {
        assert(spells_byte(text, bytes, k));
        assert(s[2 * k] == text[2 * k] as u8);
        assert(s[2 * k + 1] == text[2 * k + 1] as u8);
        assert(hex_value(s[2 * k]) == bytes[k] as int / 16);
        assert(hex_value(s[2 * k + 1]) == bytes[k] as int % 16);
    }
    assert(hex_bytes(s) =~= bytes);
}

/// However a token is spelled, with digits of either case and white space around it, bare or
/// behind the last colon of a pairing code, it is accepted at its own size and no other, and gives
/// its bytes. A device identity is spelled in the same way.
pub proof fn any_spelling_of_a_token_is_read(
    before: Seq<char>,
    a: Seq<char>,
    text: Seq<char>,
    b: Seq<char>,
    bytes: Seq<u8>,
    size: usize,
)
    requires
        spells(text, bytes),
        all_white(a),
        all_white(b),
        bytes.len() <= usize::MAX,
    ensures
        ({
            let bare = a + text + b;
            let code = before.push(':') + bare;
            &&& is_token(bare, size) == (bytes.len() == size)
            &&& is_token(code, size) == (bytes.len() == size)
            &&& token_bytes(bare) == bytes
            &&& token_bytes(code) == bytes
            &&& decoded(encode_utf8(trimmed(bare)), Ok(bytes))
            &&& bytes.len() != size ==> {
                let refused = Err::<Seq<u8>, TokenError>(
                    TokenError::WrongSize { expected: size, got: bytes.len() as usize },
                );
                token_of(bare, size, refused) && token_of(code, size, refused)
            }
        }),
{
    spelling_decodes(text, bytes);
    let bare = a + text + b;
    assert(text.len() > 0 ==> !white_space(text[0]) && !white_space(text.last()));
    trimming_takes_the_ends(a, text, b);
    assert forall|i: int| 0 <= i < bare.len() implies #[trigger] bare[i] != ':' by {
        if i < a.len() {
            assert(white_space(a[i]));
        } else if i < a.len() + text.len() {
            assert(text[i - a.len()] != ':');
        } else {
            assert(white_space(b[i - a.len() - text.len()]));
        }
    }
    the_last_part_has_no_mark(before, ':', bare);
}

/// Whether a byte is an ASCII digit or a letter from A to F of either case.
pub open spec fn ascii_hex(b: u8) -> bool {
    '0' as u8 <= b <= '9' as u8 || 'a' as u8 <= b <= 'f' as u8 || 'A' as u8 <= b <= 'F' as u8
}

/// What is not hexadecimal is refused: an odd number of digits first, and otherwise the first
/// byte that is no digit, with its place.
pub proof fn what_is_not_hexadecimal_is_refused(s: Seq<u8>, r: Result<Seq<u8>, HexError>, i: usize)
    requires
        decoded(s, r),
    ensures
        s.len() % 2 == 1 <==> r == Err::<Seq<u8>, HexError>(HexError::OddLength),
        s.len() % 2 == 0 && i < s.len() && !ascii_hex(s[i as int]) && (forall|k: int|
            0 <= k < i ==> ascii_hex(#[trigger] s[k])) ==> r == Err::<Seq<u8>, HexError>(
            HexError::InvalidHexCharacter { c: s[i as int] as char, index: i },
        ),
        s.len() % 2 == 0 && (forall|k: int| 0 <= k < s.len() ==> ascii_hex(#[trigger] s[k]))
            ==> r is Ok,
{
    assert forall|b: u8| #[trigger] is_hex(b) == ascii_hex(b) by {}
    if s.len() % 2 == 0 {
        if i < s.len() && !ascii_hex(s[i as int]) && (forall|k: int|
            0 <= k < i ==> ascii_hex(#[trigger] s[k])) {
            let e = Err::<Seq<u8>, HexError>(
                HexError::InvalidHexCharacter { c: s[i as int] as char, index: i },
            );
            assert(all_hex(s.take(i as int)));
            decoding_is_unique(s, r, e);
        }
        if forall|k: int| 0 <= k < s.len() ==> ascii_hex(#[trigger] s[k]) {
            assert(all_hex(s));
            decoding_is_unique(s, r, Ok(hex_bytes(s)));
        }
    }
}

/// A token that is not hexadecimal is refused for what is wrong with its digits.
pub proof fn a_token_is_refused_for_its_digits(
    raw: Seq<char>,
    size: usize,
    e: HexError,
    r: Result<Seq<u8>, TokenError>,
)
    requires
        decoded(encode_utf8(token_text(raw)), Err(e)),
        token_of(raw, size, r),
    ensures
        r == Err::<Seq<u8>, TokenError>(TokenError::NotHex(e)),
{
    let digits = encode_utf8(token_text(raw));
    match r {
        Ok(bytes) => {
            decoding_is_unique(digits, Err(e), Ok(bytes));
        },
        Err(TokenError::NotHex(f)) => {
            decoding_is_unique(digits, Err(e), Err(f));
        },
        Err(TokenError::WrongSize { expected, got }) => {
            decoding_is_unique(digits, Err(e), Ok(hex_bytes(digits)));
        },
    }
}

} // verus!
