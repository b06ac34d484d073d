//! Hexadecimal text: bytes and numbers, written and read.

use vstd::prelude::*;
use vstd::string::StringExecFns;
use vstd::utf8::*;

use crate::bytes::{be_value, bytes_span, lemma_be_value_bound};
use crate::text::{is_space, trim, trimmed};

verus! {

/// The value of a hexadecimal digit in either case; `None` for another byte.
pub open spec fn nibble(b: u8) -> Option<u8> {
    if 0x30 <= b <= 0x39 {
        Some((b - 0x30) as u8)
    } else if 0x61 <= b <= 0x66 {
        Some((b - 0x61 + 10) as u8)
    } else if 0x41 <= b <= 0x46 {
        Some((b - 0x41 + 10) as u8)
    } else {
        None
    }
}

/// The lower-case hexadecimal digit of a value below 16.
pub open spec fn digit_char(d: int) -> char {
    if d < 10 {
        (0x30 + d) as char
    } else {
        (0x61 + d - 10) as char
    }
}

/// Bytes as lower-case hexadecimal text, two digits each.
pub open spec fn hex_chars(data: Seq<u8>) -> Seq<char> {
    Seq::new(
        2 * data.len(),
        |i: int|
            if i % 2 == 0 {
                digit_char(data[i / 2] as int / 16)
            } else {
                digit_char(data[i / 2] as int % 16)
            },
    )
}

/// The digits of a number in base 16, without leading zeros (`0` for zero).
pub open spec fn hex_digits(v: nat) -> Seq<char>
    decreases v,
{
    if v < 16 {
        seq![digit_char(v as int)]
    } else {
        hex_digits(v / 16).push(digit_char((v % 16) as int))
    }
}

/// A number in base 16, filled up with zeros on the left to at least `width`
/// digits.
pub open spec fn hex_number(v: nat, width: nat) -> Seq<char> {
    let digits = hex_digits(v);
    if digits.len() < width {
        Seq::new((width - digits.len()) as nat, |i: int| '0') + digits
    } else {
        digits
    }
}

/// The byte that two characters of text stand for: two digits, or a plus sign
/// and one digit. Anything else counts as zero.
pub open spec fn pair_byte(hi: u8, lo: u8) -> u8 {
    match (nibble(hi), nibble(lo)) {
        (Some(h), Some(l)) => (16 * h + l) as u8,
        (None, Some(l)) => if hi == 0x2b {
            l
        } else {
            0
        },
        _ => 0,
    }
}

/// The bytes that a text stands for pair by pair; an odd byte at the end is
/// left out.
pub open spec fn paired_bytes(text: Seq<u8>) -> Seq<u8> {
    Seq::new(text.len() / 2, |i: int| pair_byte(text[2 * i], text[2 * i + 1]))
}

/// Whether no pair begins or ends inside a character.
pub open spec fn pairs_whole(text: Seq<u8>) -> bool {
    forall|i: int| 0 <= i <= text.len() / 2 ==> is_char_boundary(text, #[trigger] (2 * i))
}

/// Whether a text, once trimmed, falls into pairs of whole characters.
pub open spec fn hex_splits(s: Seq<char>) -> bool {
    pairs_whole(encode_utf8(trimmed(s)))
}

/// The bytes that a text, once trimmed, stands for pair by pair.
pub open spec fn hex_read(s: Seq<char>) -> Seq<u8> {
    paired_bytes(encode_utf8(trimmed(s)))
}

/// Whether a text is an even number of hexadecimal digits.
pub open spec fn is_hex_text(text: Seq<u8>) -> bool {
    text.len() % 2 == 0 && forall|i: int| 0 <= i < text.len() ==> nibble(#[trigger] text[i]) is Some
}

/// The value of a string of hexadecimal digits, most significant first; `None`
/// where another byte is among them.
pub open spec fn hex_numeral(text: Seq<u8>) -> Option<nat>
    decreases text.len(),
{
    if text.len() == 0 {
        Some(0)
    } else {
        match (hex_numeral(text.drop_last()), nibble(text.last())) {
            (Some(v), Some(d)) => Some(16 * v + d as nat),
            _ => None,
        }
    }
}

/// The digits of a numeral: what follows the plus sign, where there is one.
pub open spec fn after_plus(text: Seq<u8>) -> Seq<u8> {
    if text.len() > 0 && text[0] == 0x2b {
        text.drop_first()
    } else {
        text
    }
}

/// The `u32` that a text stands for in base 16: an optional plus sign, then at
/// least one digit and nothing else, with a value that fits.
pub open spec fn hex_u32(s: Seq<char>) -> Option<u32> {
    let digits = after_plus(encode_utf8(s));
    match hex_numeral(digits) {
        Some(v) => if digits.len() > 0 && v <= u32::MAX {
            Some(v as u32)
        } else {
            None
        },
        None => None,
    }
}

/// `hex::encode`: lower-case hexadecimal text, two digits for each byte.
#[verifier::external_body]
pub(crate) fn hex_encode(data: &[u8]) -> (r: String)
    ensures
        r@ == hex_chars(data@),
{
    hex::encode(data)
}

#[verifier::external_type_specification]
#[verifier::external_body]
pub struct ExFromHexError(hex::FromHexError);

/// `hex::decode`: succeeds exactly on an even number of hexadecimal digits in
/// either case, and gives the byte of each pair.
#[verifier::external_body]
pub(crate) fn hex_decode(text: &str) -> (r: Result<Vec<u8>, hex::FromHexError>)
    ensures
        match r {
            Ok(v) => is_hex_text(encode_utf8(text@)) && v@ == paired_bytes(encode_utf8(text@)),
            Err(_) => !is_hex_text(encode_utf8(text@)),
        },
{
    hex::decode(text)
}

fn nibble_of(b: u8) -> (r: Option<u8>)
    ensures
        r == nibble(b),
{
    if 0x30 <= b && b <= 0x39 {
        Some(b - 0x30)
    } else if 0x61 <= b && b <= 0x66 {
        Some(b - 0x61 + 10)
    } else if 0x41 <= b && b <= 0x46 {
        Some(b - 0x41 + 10)
    } else {
        None
    }
}

fn digit_text(d: u8) -> (r: &'static str)
    requires
        d < 16,
    ensures
        r@ == seq![digit_char(d as int)],
{
    proof {
        reveal_strlit("0");
        reveal_strlit("1");
        reveal_strlit("2");
        reveal_strlit("3");
        reveal_strlit("4");
        reveal_strlit("5");
        reveal_strlit("6");
        reveal_strlit("7");
        reveal_strlit("8");
        reveal_strlit("9");
        reveal_strlit("a");
        reveal_strlit("b");
        reveal_strlit("c");
        reveal_strlit("d");
        reveal_strlit("e");
        reveal_strlit("f");
    }
    match d {
        0 => "0",
        1 => "1",
        2 => "2",
        3 => "3",
        4 => "4",
        5 => "5",
        6 => "6",
        7 => "7",
        8 => "8",
        9 => "9",
        10 => "a",
        11 => "b",
        12 => "c",
        13 => "d",
        14 => "e",
        _ => "f",
    }
}

/// Writes bytes as lower-case hexadecimal text.
pub fn to_hex(data: &[u8]) -> (r: String)
    ensures
        r@ == hex_chars(data@),
{
    let mut out = String::new();
    let mut i: usize = 0;
    while i < data.len()
        invariant
            i <= data@.len(),
            out@ == hex_chars(data@.take(i as int)),
        decreases data@.len() - i,
    {
        let b: u8 = data[i];
        let ghost before = data@.take(i as int);
        out.append(digit_text(b / 16));
        out.append(digit_text(b % 16));
        i = i + 1;
        proof {
            let after = data@.take(i as int);
            assert(after == before.push(b));
            assert(out@ =~= hex_chars(after)) by {
                assert(hex_chars(after).len() == 2 * i);
                assert forall|k: int| 0 <= k < 2 * i implies out@[k] == hex_chars(after)[k] by {
                    if k < 2 * (i - 1) {
                        assert(out@[k] == hex_chars(before)[k]);
                        assert(after[k / 2] == before[k / 2]);
                    }
                }
            }
        }
    }
    assert(data@.take(i as int) == data@);
    out
}

/// Whether [`from_hex`] can read a text: no pair of bytes may begin or end
/// inside a character.
pub fn splits_into_pairs(s: &str) -> (r: bool)
    ensures
        r == hex_splits(s@),
{
    let t = trim(s);
    let n: usize = t.as_bytes().len();
    let mut i: usize = 0;
    while i <= n / 2
        invariant
            n == encode_utf8(t@).len(),
            i <= n / 2 + 1,
            t@ == trimmed(s@),
            forall|k: int| 0 <= k < i ==> is_char_boundary(encode_utf8(t@), #[trigger] (2 * k)),
        decreases n / 2 + 1 - i,
    {
        if !t.is_char_boundary(2 * i) {
            assert(!is_char_boundary(encode_utf8(t@), 2 * (i as int)));
            return false;
        }
        i = i + 1;
    }
    true
}

/// Reads hexadecimal text leniently: white space around it is dropped, every
/// two bytes give one byte, a pair that is no number gives zero, and an odd byte
/// at the end is ignored.
pub fn from_hex(s: &str) -> (r: Vec<u8>)
    requires
        hex_splits(s@),
    ensures
        r@ == hex_read(s@),
{
    let t = trim(s);
    let text = t.as_bytes();
    let n: usize = text.len() / 2;
    let mut out: Vec<u8> = Vec::new();
    while out.len() < n
        invariant
            n == text@.len() / 2,
            text@.len() <= usize::MAX,
            out@.len() <= n,
            out@ == paired_bytes(text@).take(out@.len() as int),
        decreases n - out@.len(),
    {
        let i: usize = out.len();
        let hi: u8 = text[2 * i];
        let lo: u8 = text[2 * i + 1];
        let b: u8 = match (nibble_of(hi), nibble_of(lo)) {
            (Some(h), Some(l)) => 16 * h + l,
            (None, Some(l)) => if hi == 0x2b {
                l
            } else {
                0
            },
            _ => 0,
        };
        out.push(b);
        assert(out@ =~= paired_bytes(text@).take(out@.len() as int));
    }
    assert(out@ =~= paired_bytes(text@));
    out
}

proof fn lemma_numeral_prefix(text: Seq<u8>, n: int)
    requires
        0 <= n <= text.len(),
    ensures
        hex_numeral(text.take(n)) is None ==> hex_numeral(text) is None,
        hex_numeral(text) is Some ==> hex_numeral(text.take(n)).unwrap() <= hex_numeral(text).unwrap(),
    decreases text.len(),
{
    if n == text.len() {
        assert(text.take(n) == text);
    } else {
        assert(text.drop_last().take(n) == text.take(n));
        lemma_numeral_prefix(text.drop_last(), n);
    }
}

/// Reads a `u32` in base 16: an optional plus sign and at least one digit.
pub fn parse_hex_u32(s: &str) -> (r: Option<u32>)
    ensures
        r == hex_u32(s@),
{
    let text = s.as_bytes();
    let len: usize = text.len();
    let start: usize = if len > 0 && text[0] == 0x2b {
        1
    } else {
        0
    };
    let ghost digits = after_plus(text@);
    assert(digits == text@.skip(start as int));
    if start == len {
        return None;
    }
    let mut value: u32 = 0;
    let mut i: usize = start;
    assert(digits.take(0) == Seq::<u8>::empty());
    while i < len
        invariant
            start <= i <= len,
            len == text@.len(),
            digits == text@.skip(start as int),
            digits.len() > 0,
            hex_numeral(digits.take(i - start)) == Some(value as nat),
            digits == after_plus(encode_utf8(s@)),
        decreases len - i,
    {
        let ghost before = digits.take(i - start);
        let ghost after = digits.take(i - start + 1);
        assert(after.drop_last() == before);
        assert(after.last() == text@[i as int]);
        proof {
            lemma_numeral_prefix(digits, i - start + 1);
        }
        let d: u8 = match nibble_of(text[i]) {
            Some(d) => d,
            None => {
                return None;
            },
        };
        let wide: u64 = 16 * (value as u64) + d as u64;
        if wide > 0xffff_ffff {
            return None;
        }
        value = wide as u32;
        i = i + 1;
    }
    assert(digits.take(len - start) == digits);
    Some(value)
}

proof fn lemma_digit_count(v: nat, k: nat)
    requires
        v < bytes_span(k),
        k > 0,
    ensures
        1 <= hex_digits(v).len() <= 2 * k,
    decreases k,
{
    reveal_with_fuel(bytes_span, 2);
    reveal_with_fuel(hex_digits, 3);
    if v >= 256 {
        lemma_digit_count(v / 256, (k - 1) as nat);
        assert(v / 16 / 16 == v / 256);
    }
}

fn digit_count(v: u64) -> (r: usize)
    ensures
        r == hex_digits(v as nat).len(),
{
    proof {
        reveal_with_fuel(bytes_span, 9);
        lemma_digit_count(v as nat, 8);
    }
    let mut rest: u64 = v;
    let mut n: usize = 1;
    while rest >= 16
        invariant
            hex_digits(v as nat).len() == n - 1 + hex_digits(rest as nat).len(),
            hex_digits(v as nat).len() <= 16,
        decreases rest,
    {
        rest = rest / 16;
        n = n + 1;
    }
    n
}

fn append_digits(out: &mut String, v: u64)
    ensures
        final(out)@ == old(out)@ + hex_digits(v as nat),
    decreases v,
{
    if v >= 16 {
        append_digits(out, v / 16);
    }
    out.append(digit_text((v % 16) as u8));
    assert(out@ =~= old(out)@ + hex_digits(v as nat));
}

/// Writes a number in base 16, with zeros on the left up to `width` digits.
pub fn format_hex(v: u64, width: usize) -> (r: String)
    ensures
        r@ == hex_number(v as nat, width as nat),
{
    let count: usize = digit_count(v);
    let mut out = String::new();
    let mut n: usize = count;
    proof {
        reveal_strlit("0");
    }
    while n < width
        invariant
            count <= n,
            count < width ==> n <= width,
            count >= width ==> n == count,
            out@ == Seq::new((n - count) as nat, |i: int| '0'),
            "0"@ == seq!['0'],
        decreases width - n,
    {
        out.append("0");
        n = n + 1;
        assert(out@ =~= Seq::new((n - count) as nat, |i: int| '0'));
    }
    append_digits(&mut out, v);
    assert(out@ =~= hex_number(v as nat, width as nat));
    out
}

proof fn lemma_trimmed_ascii(s: Seq<char>)
    requires
        is_ascii_chars(s),
    ensures
        is_ascii_chars(trimmed(s)),
    decreases s.len(),
{
    if s.len() > 0 {
        if is_space(s.first()) {
            lemma_trimmed_ascii(s.drop_first());
        } else if is_space(s.last()) {
            lemma_trimmed_ascii(s.drop_last());
        }
    }
}

/// Every ASCII text falls into pairs of whole characters.
pub proof fn law_ascii_text_splits(s: Seq<char>)
    requires
        is_ascii_chars(s),
    ensures
        hex_splits(s),
{
    lemma_trimmed_ascii(s);
    let t = trimmed(s);
    let text = encode_utf8(t);
    encode_utf8_valid_utf8(t);
    is_ascii_chars_encode_utf8(t);
    is_char_boundary_start_end_of_seq(text);
    assert forall|i: int| 0 <= i <= text.len() / 2 implies is_char_boundary(
        text,
        #[trigger] (2 * i),
    ) by {
        if 2 * i < text.len() {
            assert('\0' <= t[2 * i] <= '\u{7f}');
            is_char_boundary_iff_not_is_continuation_byte(text, 2 * i);
        }
    }
}

proof fn lemma_digit_char(d: int)
    requires
        0 <= d < 16,
    ensures
        '\0' <= digit_char(d) <= '\u{7f}',
        !is_space(digit_char(d)),
        nibble(digit_char(d) as u8) == Some(d as u8),
        digit_char(d) as u8 != 0x2b,
{
}

/// Bytes written as hexadecimal text are read back, by the strict and by the
/// lenient reading alike.
pub proof fn law_hex_reads_back(data: Seq<u8>)
    ensures
        is_hex_text(encode_utf8(hex_chars(data))),
        paired_bytes(encode_utf8(hex_chars(data))) == data,
        hex_splits(hex_chars(data)),
        hex_read(hex_chars(data)) == data,
{
    let s = hex_chars(data);
    assert forall|i: int| 0 <= i < s.len() implies '\0' <= #[trigger] s[i] <= '\u{7f}' && !is_space(
        s[i],
    ) && nibble(s[i] as u8) == Some(
        if i % 2 == 0 {
            data[i / 2] / 16
        } else {
            data[i / 2] % 16
        },
    ) by {
        lemma_digit_char(data[i / 2] as int / 16);
        lemma_digit_char(data[i / 2] as int % 16);
    }
    assert(is_ascii_chars(s));
    is_ascii_chars_encode_utf8(s);
    law_ascii_text_splits(s);
    assert(trimmed(s) == s) by {
        if s.len() > 0 {
            assert(!is_space(s[0]));
            assert(!is_space(s[s.len() - 1]));
        }
    }
    let text = encode_utf8(s);
    assert forall|i: int| 0 <= i < text.len() implies nibble(#[trigger] text[i]) is Some by {
        assert(nibble(s[i] as u8) is Some);
    }
    assert forall|i: int| 0 <= i < data.len() implies #[trigger] paired_bytes(text)[i] == data[i] by {
        assert(text[2 * i] == s[2 * i] as u8);
        assert(text[2 * i + 1] == s[2 * i + 1] as u8);
        assert((2 * i) / 2 == i && (2 * i + 1) / 2 == i);
        assert((2 * i) % 2 == 0 && (2 * i + 1) % 2 == 1);
    }
    assert(paired_bytes(text) =~= data);
}

proof fn lemma_digits_read_back(v: nat)
    ensures
        is_ascii_chars(hex_digits(v)),
        hex_digits(v).len() > 0,
        hex_digits(v)[0] as u8 != 0x2b,
        hex_numeral(ascii_bytes(hex_digits(v))) == Some(v),
    decreases v,
{
    if v < 16 {
        lemma_digit_char(v as int);
        let text = ascii_bytes(hex_digits(v));
        assert(text.drop_last() == Seq::<u8>::empty());
        assert(hex_numeral(text.drop_last()) == Some(0nat));
    } else {
        lemma_digit_char((v % 16) as int);
        lemma_digits_read_back(v / 16);
        let text = ascii_bytes(hex_digits(v));
        assert(text.drop_last() == ascii_bytes(hex_digits(v / 16)));
    }
}

spec fn ascii_bytes(s: Seq<char>) -> Seq<u8> {
    Seq::new(s.len(), |i: int| s[i] as u8)
}

proof fn lemma_padding_reads_back(v: nat, k: nat)
    ensures
        hex_numeral(ascii_bytes(Seq::new(k, |i: int| '0') + hex_digits(v))) == Some(v),
    decreases k,
{
    lemma_digits_read_back(v);
    let pad = Seq::new(k, |i: int| '0');
    lemma_zeros_numeral(ascii_bytes(pad));
    lemma_numeral_after_zeros(ascii_bytes(pad), ascii_bytes(hex_digits(v)));
    assert(ascii_bytes(pad + hex_digits(v)) == ascii_bytes(pad) + ascii_bytes(hex_digits(v)));
}

proof fn lemma_zeros_numeral(text: Seq<u8>)
    requires
        forall|i: int| 0 <= i < text.len() ==> #[trigger] text[i] == 0x30,
    ensures
        hex_numeral(text) == Some(0nat),
    decreases text.len(),
{
    if text.len() > 0 {
        lemma_zeros_numeral(text.drop_last());
    }
}

proof fn lemma_numeral_after_zeros(pad: Seq<u8>, text: Seq<u8>)
    requires
        hex_numeral(pad) == Some(0nat),
    ensures
        hex_numeral(pad + text) == hex_numeral(text),
    decreases text.len(),
{
    if text.len() == 0 {
        assert(pad + text == pad);
    } else {
        lemma_numeral_after_zeros(pad, text.drop_last());
        assert((pad + text).drop_last() == pad + text.drop_last());
        assert((pad + text).last() == text.last());
    }
}

proof fn lemma_number_reads_back(v: nat, width: nat)
    ensures
        is_ascii_chars(hex_number(v, width)),
        hex_number(v, width).len() > 0,
        after_plus(encode_utf8(hex_number(v, width))) == ascii_bytes(hex_number(v, width)),
        hex_numeral(ascii_bytes(hex_number(v, width))) == Some(v),
{
    let s = hex_number(v, width);
    lemma_digits_read_back(v);
    if hex_digits(v).len() < width {
        let k = (width - hex_digits(v).len()) as nat;
        lemma_padding_reads_back(v, k);
        assert forall|i: int| 0 <= i < s.len() implies '\0' <= #[trigger] s[i] <= '\u{7f}' by {
            if i >= k {
                assert(s[i] == hex_digits(v)[i - k]);
            }
        }
    }
    is_ascii_chars_encode_utf8(s);
    assert(encode_utf8(s) =~= ascii_bytes(s));
}

/// A `u32` written in base 16, to any width, is read back.
pub proof fn law_number_reads_back(v: u32, width: nat)
    ensures
        hex_u32(hex_number(v as nat, width)) == Some(v),
{
    lemma_number_reads_back(v as nat, width);
}

/// Different numbers are written differently.
pub proof fn law_numbers_differ(a: nat, b: nat, width: nat)
    requires
        a != b,
    ensures
        hex_number(a, width) != hex_number(b, width),
{
    lemma_number_reads_back(a, width);
    lemma_number_reads_back(b, width);
}

proof fn lemma_hex_chars_numeral(data: Seq<u8>)
    ensures
        is_ascii_chars(hex_chars(data)),
        hex_numeral(ascii_bytes(hex_chars(data))) == Some(be_value(data)),
    decreases data.len(),
{
    let s = hex_chars(data);
    assert forall|i: int| 0 <= i < s.len() implies '\0' <= #[trigger] s[i] <= '\u{7f}' by {
        lemma_digit_char(data[i / 2] as int / 16);
        lemma_digit_char(data[i / 2] as int % 16);
    }
    let text = ascii_bytes(s);
    if data.len() > 0 {
        let init = data.drop_last();
        let b = data.last();
        lemma_hex_chars_numeral(init);
        lemma_digit_char(b as int / 16);
        lemma_digit_char(b as int % 16);
        let n = data.len();
        assert(text.drop_last().drop_last() =~= ascii_bytes(hex_chars(init))) by {
            assert forall|i: int| 0 <= i < 2 * init.len() implies s[i] == hex_chars(init)[i] by {
                assert(data[i / 2] == init[i / 2]);
            }
        }
        assert((2 * n - 1) / 2 == n - 1 && (2 * n - 2) / 2 == n - 1);
        assert((2 * n - 1) % 2 == 1 && (2 * n - 2) % 2 == 0);
        assert(text.last() == s[2 * n - 1] as u8);
        assert(text.drop_last().last() == s[2 * n - 2] as u8);
        reveal_with_fuel(hex_numeral, 3);
    }
}

/// Four bytes written as hexadecimal text and read as a number are read with the
/// first byte the highest.
pub proof fn law_hex_of_four_bytes_is_big_endian(data: Seq<u8>)
    requires
        data.len() == 4,
    ensures
        hex_u32(hex_chars(data)) == Some(be_value(data) as u32),
        be_value(data) <= u32::MAX,
{
    lemma_hex_chars_numeral(data);
    let s = hex_chars(data);
    is_ascii_chars_encode_utf8(s);
    assert(encode_utf8(s) =~= ascii_bytes(s));
    lemma_digit_char(data[0] as int / 16);
    assert(s[0] == digit_char(data[0] as int / 16));
    assert(after_plus(encode_utf8(s)) == ascii_bytes(s));
    lemma_be_value_bound(data);
    reveal_with_fuel(bytes_span, 5);
}

}
