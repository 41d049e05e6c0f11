//! Numeric literals: what counts as a decimal or hexadecimal numeral, what number it
//! denotes, and decoders that compute that number.

use vstd::prelude::*;
use vstd::string::*;
use vstd::utf8::*;

verus! {

/// Number of hexadecimal digits in one chunk (eight bytes).
pub const HEX_CHUNK_SIZE: usize = 16;

/// Byte order in which the digit pairs of a hexadecimal chunk are read.
#[derive(Clone, Copy, Debug, PartialEq, Eq, Structural)]
pub enum Endianness {
    /// Most significant digit first, as a number is written by hand.
    Big,
    /// Each pair of digits is one byte, least significant byte first.
    Little,
}

/// Outcome of decoding a numeral.
#[derive(Clone, Copy, Debug, PartialEq, Eq, Structural)]
pub enum Decoded {
    /// The text is empty or holds a character that is not a digit.
    NotANumber,
    /// The text is a numeral whose value does not fit in 64 bits.
    TooLarge,
    /// The text is a numeral with this value.
    Value(u64),
}

/// The value of `c` as a digit, for the characters `0-9`, `a-f` and `A-F`.
pub open spec fn digit_value(c: char) -> Option<nat> {
    if '0' <= c && c <= '9' {
        Some((c as int - '0' as int) as nat)
    } else if 'a' <= c && c <= 'f' {
        Some((c as int - 'a' as int + 10) as nat)
    } else if 'A' <= c && c <= 'F' {
        Some((c as int - 'A' as int + 10) as nat)
    } else {
        None
    }
}

/// `c` is a digit in base `radix`.
pub open spec fn is_digit(c: char, radix: nat) -> bool {
    digit_value(c) matches Some(d) && d < radix
}

/// `s` is a numeral in base `radix`: at least one character, all of them digits.
pub open spec fn is_numeral(s: Seq<char>, radix: nat) -> bool {
    s.len() > 0 && forall|i: int| 0 <= i < s.len() ==> is_digit(#[trigger] s[i], radix)
}

/// The number that the digits of `s` denote in base `radix`, most significant first.
pub open spec fn numeral_value(s: Seq<char>, radix: nat) -> nat
    decreases s.len(),
{
    if s.len() == 0 {
        0
    } else {
        numeral_value(s.drop_last(), radix) * radix + digit_value(s.last()).unwrap_or(0)
    }
}

/// `s` is an unsigned decimal integer.
pub open spec fn is_decimal(s: Seq<char>) -> bool {
    is_numeral(s, 10)
}

/// The value of the decimal integer `s`.
pub open spec fn decimal_value(s: Seq<char>) -> nat {
    numeral_value(s, 10)
}

/// `s` is a hexadecimal number (without prefix).
pub open spec fn is_hex(s: Seq<char>) -> bool {
    is_numeral(s, 16)
}

/// `s` with its two-digit bytes in reverse order; a trailing odd digit is dropped.
pub open spec fn reverse_bytes(s: Seq<char>) -> Seq<char> {
    let pairs = s.len() / 2;
    Seq::new((2 * pairs) as nat, |k: int| s[2 * (pairs - 1 - k / 2) + k % 2])
}

/// The value of the hexadecimal digits `s` read as bytes, least significant byte first:
/// the first two digits are the lowest byte, the next two the byte above it, and so on.
pub open spec fn little_endian_value(s: Seq<char>) -> nat
    decreases s.len(),
{
    if s.len() < 2 {
        0
    } else {
        16 * digit_value(s[0]).unwrap_or(0) + digit_value(s[1]).unwrap_or(0) + 256
            * little_endian_value(s.skip(2))
    }
}

/// What decoding the text `s` in base `radix` gives.
pub open spec fn decoding(s: Seq<char>, radix: nat) -> Decoded {
    if !is_numeral(s, radix) {
        Decoded::NotANumber
    } else if numeral_value(s, radix) > u64::MAX {
        Decoded::TooLarge
    } else {
        Decoded::Value(numeral_value(s, radix) as u64)
    }
}

/// What decoding the hexadecimal digits `s` in the given byte order gives. Big-endian,
/// the digits are one number, most significant digit first. Little-endian, they are
/// bytes of two digits each, least significant byte first.
pub open spec fn hex_decoding(s: Seq<char>, endianness: Endianness) -> Decoded {
    match endianness {
        Endianness::Big => decoding(s, 16),
        Endianness::Little => if s.len() % 2 != 0 || !is_hex(s) {
            Decoded::NotANumber
        } else if little_endian_value(s) > u64::MAX {
            Decoded::TooLarge
        } else {
            Decoded::Value(little_endian_value(s) as u64)
        },
    }
}

/// `s` begins with the hexadecimal prefix `0x`.
pub open spec fn has_hex_prefix(s: Seq<char>) -> bool {
    s.len() >= 2 && s[0] == '0' && s[1] == 'x'
}

/// `bytes` holds the characters of `chars`, one byte each.
pub open spec fn spells(bytes: Seq<u8>, chars: Seq<char>) -> bool {
    &&& bytes.len() == chars.len()
    &&& forall|i: int|
        0 <= i < chars.len() ==> '\0' <= (#[trigger] chars[i]) <= '\u{7f}' && chars[i] as u8
            == bytes[i]
}

/// The bytes of `text` when every character of it is ASCII.
pub(crate) fn ascii_bytes(text: &str) -> (r: Option<&[u8]>)
    ensures
        r is None ==> !is_ascii_chars(text@),
        r matches Some(bytes) ==> spells(bytes@, text@),
{
    if text.is_ascii() {
        proof {
            is_ascii_chars_encode_utf8(text@);
        }
        Some(text.as_bytes())
    } else {
        None
    }
}

/// The digit that the byte `b` spells, if any.
fn digit_of_byte(b: u8, Ghost(c): Ghost<char>) -> (r: Option<u64>)
    requires
        c <= '\u{7f}',
        c as u8 == b,
    ensures
        r is Some <==> digit_value(c) is Some,
        r matches Some(d) ==> digit_value(c) == Some(d as nat) && d < 16,
{
    if 48 <= b && b <= 57 {
        Some((b - 48) as u64)
    } else if 97 <= b && b <= 102 {
        Some((b - 97 + 10) as u64)
    } else if 65 <= b && b <= 70 {
        Some((b - 65 + 10) as u64)
    } else {
        None
    }
}

/// Decodes the numeral spelled by `bytes` in base `radix`.
pub(crate) fn decode_bytes(bytes: &[u8], radix: u64, Ghost(chars): Ghost<Seq<char>>) -> (d: Decoded)
    requires
        spells(bytes@, chars),
        1 <= radix <= 16,
    ensures
        d == decoding(chars, radix as nat),
{
    let n: usize = bytes.len();
    if n == 0 {
        return Decoded::NotANumber;
    }
    let mut value: u64 = 0;
    let mut too_large: bool = false;
    let mut i: usize = 0;
    while i < n
        invariant
            n == bytes@.len(),
            spells(bytes@, chars),
            1 <= radix <= 16,
            i <= n,
            forall|j: int| 0 <= j < i ==> is_digit(#[trigger] chars[j], radix as nat),
            !too_large ==> numeral_value(chars.take(i as int), radix as nat) == value,
            too_large ==> numeral_value(chars.take(i as int), radix as nat) > u64::MAX,
        decreases n - i,
    {
        let digit: u64 = match digit_of_byte(bytes[i], Ghost(chars[i as int])) {
            Some(d) => d,
            None => {
                assert(!is_digit(chars[i as int], radix as nat));
                return Decoded::NotANumber;
            },
        };
        if digit >= radix {
            assert(!is_digit(chars[i as int], radix as nat));
            return Decoded::NotANumber;
        }
        proof {
            let next = chars.take(i + 1);
            assert(next.drop_last() =~= chars.take(i as int));
            assert(next.last() == chars[i as int]);
            let front: nat = numeral_value(chars.take(i as int), radix as nat);
            assert(numeral_value(next, radix as nat) == front * (radix as nat) + digit);
            assert(front * (radix as nat) >= front) by (nonlinear_arith)
                requires
                    radix >= 1,
            ;
        }
        if !too_large {
            match value.checked_mul(radix) {
                Some(shifted) => match shifted.checked_add(digit) {
                    Some(sum) => {
                        value = sum;
                    },
                    None => {
                        too_large = true;
                    },
                },
                None => {
                    too_large = true;
                },
            }
        }
        i += 1;
    }
    proof {
        assert(chars.take(n as int) =~= chars);
    }
    if too_large {
        Decoded::TooLarge
    } else {
        Decoded::Value(value)
    }
}

/// Decodes an unsigned decimal integer.
pub fn decode_decimal(text: &str) -> (d: Decoded)
    ensures
        d == decoding(text@, 10),
{
    match ascii_bytes(text) {
        Some(bytes) => decode_bytes(bytes, 10, Ghost(text@)),
        None => Decoded::NotANumber,
    }
}

/// Decodes hexadecimal digits (without prefix) read in the given byte order.
pub fn decode_hex(text: &str, endianness: Endianness) -> (d: Decoded)
    ensures
        d == hex_decoding(text@, endianness),
{
    let bytes: &[u8] = match ascii_bytes(text) {
        Some(bytes) => bytes,
        None => {
            proof {
                lemma_digits_are_ascii(text@, endianness);
            }
            return Decoded::NotANumber;
        },
    };
    match endianness {
        Endianness::Big => decode_bytes(bytes, 16, Ghost(text@)),
        Endianness::Little => {
            let n: usize = bytes.len();
            if n % 2 != 0 {
                return Decoded::NotANumber;
            }
            let pairs: usize = n / 2;
            let mut reversed: Vec<u8> = Vec::new();
            let mut k: usize = 0;
            while k < n
                invariant
                    n == bytes@.len(),
                    n == 2 * pairs,
                    k <= n,
                    reversed@.len() == k,
                    forall|j: int|
                        0 <= j < k ==> #[trigger] reversed@[j] == bytes@[2 * (pairs - 1 - j / 2)
                            + j % 2],
                decreases n - k,
            {
                reversed.push(bytes[2 * (pairs - 1 - k / 2) + k % 2]);
                k += 1;
            }
            proof {
                assert(spells(reversed@, reverse_bytes(text@)));
                lemma_reversed_digits(text@);
                lemma_reversed_value(text@);
            }
            decode_bytes(reversed.as_slice(), 16, Ghost(reverse_bytes(text@)))
        },
    }
}

/// The rest of `text` after the hexadecimal prefix `0x`, if it has one.
pub fn strip_hex_prefix(text: &str) -> (r: Option<&str>)
    ensures
        r is Some <==> has_hex_prefix(text@),
        r matches Some(rest) ==> rest@ == text@.skip(2),
{
    let n: usize = text.unicode_len();
    if n >= 2 && text.get_char(0) == '0' && text.get_char(1) == 'x' {
        let rest: &str = text.substring_char(2, n);
        assert(text@.subrange(2, n as int) =~= text@.skip(2));
        Some(rest)
    } else {
        None
    }
}

/// Text with a character outside ASCII is not a hexadecimal number in either byte order.
proof fn lemma_digits_are_ascii(s: Seq<char>, endianness: Endianness)
    requires
        !is_ascii_chars(s),
    ensures
        hex_decoding(s, endianness) == Decoded::NotANumber,
{
    let i = choose|i: int| 0 <= i < s.len() && !('\0' <= #[trigger] s[i] <= '\u{7f}');
    assert(!is_digit(s[i], 16));
}

/// Reversing the bytes of an even number of digits keeps them digits.
pub proof fn lemma_reversed_digits(s: Seq<char>)
    requires
        s.len() % 2 == 0,
    ensures
        is_hex(reverse_bytes(s)) == is_hex(s),
{
    let r = reverse_bytes(s);
    let pairs = s.len() / 2;
    if is_hex(s) {
        assert forall|k: int| 0 <= k < r.len() implies is_digit(#[trigger] r[k], 16) by {
            assert(is_digit(s[2 * (pairs - 1 - k / 2) + k % 2], 16));
        }
    }
    if is_hex(r) {
        assert forall|i: int| 0 <= i < s.len() implies is_digit(#[trigger] s[i], 16) by {
            let k = 2 * (pairs - 1 - i / 2) + i % 2;
            assert(r[k] == s[i]);
        }
    }
}

/// A little-endian chunk is a byte-reversed number: read most significant digit first,
/// the digits of `s` with their bytes reversed have the value of `s` read least
/// significant byte first.
pub proof fn lemma_reversed_value(s: Seq<char>)
    requires
        s.len() % 2 == 0,
    ensures
        numeral_value(reverse_bytes(s), 16) == little_endian_value(s),
    decreases s.len(),
{
    let r = reverse_bytes(s);
    if s.len() == 0 {
        assert(r.len() == 0);
    } else {
        let rest = s.skip(2);
        lemma_reversed_value(rest);
        let front = r.drop_last().drop_last();
        assert(front =~= reverse_bytes(rest)) by {
            let pairs = s.len() / 2;
            assert forall|k: int| 0 <= k < front.len() implies front[k] == reverse_bytes(rest)[k] by {
                assert(rest[2 * (pairs - 2 - k / 2) + k % 2] == s[2 * (pairs - 1 - k / 2) + k % 2]);
            }
        }
        assert(r.last() == s[1]);
        assert(r.drop_last().last() == s[0]);
        assert(numeral_value(r, 16) == numeral_value(r.drop_last(), 16) * 16 + digit_value(
            s[1],
        ).unwrap_or(0));
        assert(numeral_value(r.drop_last(), 16) == numeral_value(front, 16) * 16 + digit_value(
            s[0],
        ).unwrap_or(0));
    }
}

} // verus!
