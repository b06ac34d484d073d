//! Bytes, hexadecimal text and numbers, digit by digit.

use vstd::arithmetic::div_mod::{lemma_basic_div, lemma_div_denominator};
use vstd::arithmetic::power::{lemma_pow_positive, pow};
use vstd::prelude::*;
use vstd::utf8::{encode_utf8, is_char_boundary};

use crate::bytes::{
    be_value, bytes_span, law_be_value_is_le_of_reverse, law_le_value_read_back, le_bytes, le_value,
    lemma_le_bytes_len, word_swapped, zeros,
};
use crate::hextext::{
    after_plus, digit_char, hex_chars, hex_digits, hex_number, hex_numeral, hex_read, hex_splits,
    hex_u32, is_hex_text, nibble, pair_byte, paired_bytes,
};
use crate::text::{is_space, trimmed};

verus! {

/// `256` to the power of a count.
pub open spec fn pow256(k: int) -> int {
    pow(256, k as nat)
}

/// `16` to the power of a count.
pub open spec fn pow16(k: int) -> int {
    pow(16, k as nat)
}

pub proof fn lemma_pow_step(base: int, k: nat)
    requires
        base > 0,
    ensures
        pow(base, 0) == 1,
        pow(base, k + 1) == base * pow(base, k),
        pow(base, k) > 0,
{
    lemma_pow_positive(base, k);
    reveal(pow);
}

pub proof fn lemma_span_is_power(k: nat)
    ensures
        bytes_span(k) == pow256(k as int),
    decreases k,
{
    reveal(pow);
    if k > 0 {
        lemma_span_is_power((k - 1) as nat);
    }
}

/// Byte `i` of a number is the number, divided by `256` to the power `i`, modulo
/// `256`.
pub proof fn law_byte_of_number(n: nat, k: nat, i: int)
    ensures
        le_bytes(n, k).len() == k,
        0 <= i < k ==> le_bytes(n, k)[i] == n as int / pow256(i) % 256,
    decreases k,
{
    lemma_le_bytes_len(n, k);
    lemma_pow_step(256, 0);
    if 0 < i < k {
        law_byte_of_number(n / 256, (k - 1) as nat, i - 1);
        lemma_pow_step(256, (i - 1) as nat);
        lemma_div_denominator(n as int, 256, pow256(i - 1));
    } else if i == 0 {
        assert(n as int / 1 == n);
    }
}

/// The number of a byte string, lowest byte first, has byte `i` in place `i` and
/// nothing beyond.
pub proof fn law_le_value_has_the_bytes(s: Seq<u8>, i: int)
    ensures
        le_value(s) < pow256(s.len() as int),
        0 <= i < s.len() ==> le_value(s) as int / pow256(i) % 256 == s[i],
{
    law_le_value_read_back(s);
    lemma_span_is_power(s.len());
    law_byte_of_number(le_value(s), s.len(), i);
}

/// The number of a byte string, highest byte first, has byte `i` in place `i` from
/// the other end and nothing beyond.
pub proof fn law_be_value_has_the_bytes(s: Seq<u8>, i: int)
    ensures
        be_value(s) < pow256(s.len() as int),
        0 <= i < s.len() ==> be_value(s) as int / pow256(s.len() - 1 - i) % 256 == s[i],
{
    law_be_value_is_le_of_reverse(s);
    law_le_value_has_the_bytes(s.reverse(), s.len() - 1 - i);
}

/// In each word of four bytes the first and the last change places, and so do the
/// two between them.
pub proof fn law_words_are_reversed(s: Seq<u8>, w: int)
    ensures
        word_swapped(s).len() == s.len(),
        0 <= w && 4 * w + 4 <= s.len() ==> {
            &&& word_swapped(s)[4 * w] == s[4 * w + 3]
            &&& word_swapped(s)[4 * w + 1] == s[4 * w + 2]
            &&& word_swapped(s)[4 * w + 2] == s[4 * w + 1]
            &&& word_swapped(s)[4 * w + 3] == s[4 * w]
        },
{
    assert((4 * w) / 4 == w && (4 * w) % 4 == 0);
    assert((4 * w + 1) / 4 == w && (4 * w + 1) % 4 == 1);
    assert((4 * w + 2) / 4 == w && (4 * w + 2) % 4 == 2);
    assert((4 * w + 3) / 4 == w && (4 * w + 3) % 4 == 3);
}

/// Zeros are as many bytes as asked for, each of them zero.
pub proof fn law_zeros_are_zero(k: nat, i: int)
    ensures
        zeros(k).len() == k,
        0 <= i < k ==> zeros(k)[i] == 0,
{
}

/// Trimming keeps a middle part: what goes is white space, and what stays begins
/// and ends with something else.
pub proof fn law_trim_takes_only_the_ends(s: Seq<char>) -> (r: (int, int))
    ensures
        0 <= r.0 <= r.1 <= s.len(),
        trimmed(s) == s.subrange(r.0, r.1),
        forall|i: int| 0 <= i < r.0 || r.1 <= i < s.len() ==> is_space(#[trigger] s[i]),
        r.0 < r.1 ==> !is_space(s[r.0]) && !is_space(s[r.1 - 1]),
    decreases s.len(),
{
    if s.len() == 0 {
        assert(s.subrange(0, 0) =~= s);
        (0, 0)
    } else if is_space(s.first()) {
        let rest = s.drop_first();
        let (from, to) = law_trim_takes_only_the_ends(rest);
        assert(rest.subrange(from, to) =~= s.subrange(from + 1, to + 1));
        assert forall|i: int| 0 <= i < from + 1 || to + 1 <= i < s.len() implies is_space(
            #[trigger] s[i],
        ) by {
            if i > 0 {
                assert(s[i] == rest[i - 1]);
            }
        }
        (from + 1, to + 1)
    } else if is_space(s.last()) {
        let rest = s.drop_last();
        let (from, to) = law_trim_takes_only_the_ends(rest);
        assert(rest.subrange(from, to) =~= s.subrange(from, to));
        assert forall|i: int| 0 <= i < from || to <= i < s.len() implies is_space(#[trigger] s[i]) by {
            if i < s.len() - 1 {
                assert(s[i] == rest[i]);
            }
        }
        (from, to)
    } else {
        assert(s.subrange(0, s.len() as int) =~= s);
        (0, s.len() as int)
    }
}

/// The sixteen digits that are written.
pub open spec fn digits() -> Seq<char> {
    "0123456789abcdef"@
}

/// The digits in upper case, which are read but not written.
pub open spec fn upper_digits() -> Seq<char> {
    "0123456789ABCDEF"@
}

proof fn lemma_digit_is_listed(d: int)
    requires
        0 <= d < 16,
    ensures
        digit_char(d) == digits()[d],
        digits().len() == 16,
        upper_digits().len() == 16,
        nibble(digits()[d] as u8) == Some(d as u8),
        nibble(upper_digits()[d] as u8) == Some(d as u8),
        digits()[d] as int <= 0x7f,
        upper_digits()[d] as int <= 0x7f,
{
    reveal_strlit("0123456789abcdef");
    reveal_strlit("0123456789ABCDEF");
    assert(d == 0 || d == 1 || d == 2 || d == 3 || d == 4 || d == 5 || d == 6 || d == 7 || d == 8
        || d == 9 || d == 10 || d == 11 || d == 12 || d == 13 || d == 14 || d == 15);
}

/// Each byte is written as two lower-case digits, the upper half first.
pub proof fn law_byte_is_two_digits(data: Seq<u8>, i: int)
    ensures
        hex_chars(data).len() == 2 * data.len(),
        0 <= i < data.len() ==> {
            &&& hex_chars(data)[2 * i] == digits()[data[i] as int / 16]
            &&& hex_chars(data)[2 * i + 1] == digits()[data[i] as int % 16]
        },
{
    lemma_digit_is_listed(data[i] as int / 16);
    lemma_digit_is_listed(data[i] as int % 16);
    assert((2 * i) / 2 == i && (2 * i + 1) / 2 == i && (2 * i) % 2 == 0 && (2 * i + 1) % 2 == 1);
}

proof fn lemma_digits_of_number(v: nat, i: int)
    requires
        0 <= i < hex_digits(v).len(),
    ensures
        hex_digits(v)[hex_digits(v).len() - 1 - i] == digits()[v as int / pow16(i) % 16],
    decreases v,
{
    lemma_pow_step(16, 0);
    lemma_digit_is_listed(v as int % 16);
    if i == 0 {
        assert(v as int / 1 == v);
    } else {
        lemma_digits_of_number(v / 16, i - 1);
        lemma_pow_step(16, (i - 1) as nat);
        lemma_div_denominator(v as int, 16, pow16(i - 1));
    }
}

proof fn lemma_number_of_digits(v: nat)
    ensures
        hex_digits(v).len() > 0,
        v < pow16(hex_digits(v).len() as int),
        hex_digits(v).len() > 1 ==> v >= pow16(hex_digits(v).len() - 1),
    decreases v,
{
    lemma_pow_step(16, 0);
    if v >= 16 {
        lemma_number_of_digits(v / 16);
        let k = hex_digits(v / 16).len();
        lemma_pow_step(16, k);
        lemma_pow_step(16, (k - 1) as nat);
    }
}

/// A number is written in lower-case digits: digit `i` from the right is the number,
/// divided by `16` to the power `i`, modulo `16`. There are at least `width` of
/// them, enough for the number, and more than `width` only where it needs them.
pub proof fn law_number_is_written_digit_by_digit(v: nat, width: nat, i: int)
    ensures
        ({
            let text = hex_number(v, width);
            &&& 0 <= i < text.len() ==> text[text.len() - 1 - i] == digits()[v as int / pow16(i)
                % 16]
            &&& text.len() >= width
            &&& text.len() > 0
            &&& v < pow16(text.len() as int)
            &&& text.len() > width && text.len() > 1 ==> v >= pow16(text.len() - 1)
        }),
{
    lemma_number_of_digits(v);
    let plain = hex_digits(v);
    let n = plain.len() as int;
    let text = hex_number(v, width);
    lemma_pow_positive(16, i as nat);
    if i < 0 || i >= text.len() {
    } else if i < n {
        lemma_digits_of_number(v, i);
        assert(text[text.len() - 1 - i] == plain[n - 1 - i]);
    } else {
        lemma_power_grows(n, i);
        assert(v as int / pow16(i) == 0) by {
            lemma_basic_div(v as int, pow16(i));
        }
        lemma_digit_is_listed(0);
    }
    lemma_power_grows(n, text.len() as int);
}

proof fn lemma_power_grows(a: int, b: int)
    requires
        0 <= a <= b,
    ensures
        pow16(a) <= pow16(b),
    decreases b - a,
{
    if a < b {
        lemma_power_grows(a, b - 1);
        lemma_pow_step(16, (b - 1) as nat);
    }
}

/// Whether a byte is the digit of a value below `16`, in either case.
pub open spec fn is_digit_of(b: u8, d: int) -> bool {
    0 <= d < 16 && (b == digits()[d] as u8 || b == upper_digits()[d] as u8)
}

/// Whether a byte is a digit.
pub open spec fn is_digit(b: u8) -> bool {
    exists|d: int| is_digit_of(b, d)
}

proof fn lemma_digit_value(b: u8, d: int)
    ensures
        is_digit_of(b, d) <==> nibble(b) == Some(d as u8) && 0 <= d < 16,
{
    if 0 <= d < 16 {
        lemma_digit_is_listed(d);
        reveal_strlit("0123456789abcdef");
        reveal_strlit("0123456789ABCDEF");
        assert(d == 0 || d == 1 || d == 2 || d == 3 || d == 4 || d == 5 || d == 6 || d == 7 || d
            == 8 || d == 9 || d == 10 || d == 11 || d == 12 || d == 13 || d == 14 || d == 15);
    }
}

proof fn lemma_digit_or_not(b: u8)
    ensures
        is_digit(b) <==> nibble(b) is Some,
{
    if let Some(v) = nibble(b) {
        lemma_digit_value(b, v as int);
    }
    if is_digit(b) {
        let d = choose|d: int| is_digit_of(b, d);
        lemma_digit_value(b, d);
    }
}

/// A text is read two bytes at a time, once it is trimmed. Two digits give their
/// byte, the upper half first; a plus sign and a digit give the digit; anything else
/// gives zero. A last byte without a partner gives nothing.
pub proof fn law_text_is_read_in_pairs(s: Seq<char>, i: int, h: int, l: int)
    ensures
        ({
            let text = encode_utf8(trimmed(s));
            let (first, second) = (text[2 * i], text[2 * i + 1]);
            &&& hex_read(s).len() == text.len() / 2
            &&& 0 <= i < text.len() / 2 ==> {
                &&& is_digit_of(first, h) && is_digit_of(second, l) ==> hex_read(s)[i] == 16 * h + l
                &&& first == '+' as u8 && is_digit_of(second, l) ==> hex_read(s)[i] == l
                &&& !is_digit(second) ==> hex_read(s)[i] == 0
                &&& !is_digit(first) && first != '+' as u8 ==> hex_read(s)[i] == 0
            }
        }),
{
    let text = encode_utf8(trimmed(s));
    let (first, second) = (text[2 * i], text[2 * i + 1]);
    if 0 <= i < text.len() / 2 {
        assert(hex_read(s)[i] == pair_byte(first, second));
    }
    lemma_digit_value(first, h);
    lemma_digit_value(second, l);
    lemma_digit_or_not(first);
    lemma_digit_or_not(second);
}

/// A strictly read text has an even number of bytes, each a digit, and gives the byte
/// of each pair, the upper half first.
pub proof fn law_strict_text_is_all_digits(text: Seq<u8>, i: int, h: int, l: int)
    ensures
        is_hex_text(text) <==> text.len() % 2 == 0 && forall|k: int|
            0 <= k < text.len() ==> is_digit(#[trigger] text[k]),
        paired_bytes(text).len() == text.len() / 2,
        0 <= i < text.len() / 2 && is_digit_of(text[2 * i], h) && is_digit_of(text[2 * i + 1], l)
            ==> paired_bytes(text)[i] == 16 * h + l,
{
    assert forall|k: int| 0 <= k < text.len() implies is_digit(#[trigger] text[k]) == (nibble(
        text[k],
    ) is Some) by {
        lemma_digit_or_not(text[k]);
    }
    if 0 <= i < text.len() / 2 {
        lemma_digit_value(text[2 * i], h);
        lemma_digit_value(text[2 * i + 1], l);
    }
}

/// A text falls into pairs exactly where no character lies across an even place.
pub proof fn law_pairs_are_whole_characters(s: Seq<char>)
    ensures
        hex_splits(s) <==> forall|j: int|
            0 <= j <= encode_utf8(trimmed(s)).len() && j % 2 == 0 ==> is_char_boundary(
                encode_utf8(trimmed(s)),
                #[trigger] (j + 0),
            ),
{
    let text = encode_utf8(trimmed(s));
    if hex_splits(s) {
        assert forall|j: int| 0 <= j <= text.len() && j % 2 == 0 implies is_char_boundary(
            text,
            #[trigger] (j + 0),
        ) by {
            assert(is_char_boundary(text, 2 * (j / 2)));
        }
    } else {
        let i = choose|i: int|
            0 <= i <= text.len() / 2 && !is_char_boundary(text, #[trigger] (2 * i));
        assert(!is_char_boundary(text, (2 * i) + 0));
    }
}

/// The bytes of a text after a plus sign at its front, where there is one.
pub open spec fn unsigned(s: Seq<char>) -> Seq<u8> {
    let text = encode_utf8(s);
    if text.len() > 0 && text[0] == '+' as u8 {
        text.skip(1)
    } else {
        text
    }
}

/// Whether a number has the digits of a text, most significant first.
pub open spec fn has_digits(n: int, text: Seq<u8>) -> bool {
    &&& 0 <= n < pow16(text.len() as int)
    &&& forall|i: int|
        0 <= i < text.len() ==> is_digit_of(
            #[trigger] text[i],
            n / pow16(text.len() - 1 - i) % 16,
        )
}

proof fn lemma_numeral_has_digits(text: Seq<u8>)
    ensures
        hex_numeral(text) matches Some(v) ==> has_digits(v as int, text),
        hex_numeral(text) is None ==> exists|i: int| 0 <= i < text.len() && !is_digit(text[i]),
    decreases text.len(),
{
    lemma_pow_step(16, 0);
    if text.len() > 0 {
        let init = text.drop_last();
        let n = text.len() as int;
        lemma_numeral_has_digits(init);
        lemma_pow_step(16, init.len());
        lemma_digit_or_not(text.last());
        match (hex_numeral(init), nibble(text.last())) {
            (Some(u), Some(d)) => {
                let v = 16 * u + d as int;
                lemma_digit_value(text.last(), d as int);
                assert forall|i: int| 0 <= i < n implies is_digit_of(
                    #[trigger] text[i],
                    v / pow16(n - 1 - i) % 16,
                ) by {
                    if i == n - 1 {
                        assert(v / 1 == v);
                    } else {
                        assert(text[i] == init[i]);
                        lemma_pow_step(16, (n - 2 - i) as nat);
                        lemma_div_denominator(v, 16, pow16(n - 2 - i));
                        assert(v / 16 == u);
                    }
                }
            },
            (None, _) => {
                let i = choose|i: int| 0 <= i < init.len() && !is_digit(init[i]);
                assert(!is_digit(text[i]));
            },
            _ => {
                assert(!is_digit(text[n - 1]));
            },
        }
    }
}

proof fn lemma_digits_tell_number(m: int, n: int, text: Seq<u8>)
    requires
        has_digits(m, text),
        has_digits(n, text),
    ensures
        m == n,
    decreases text.len(),
{
    lemma_pow_step(16, 0);
    if text.len() > 0 {
        let init = text.drop_last();
        let k = text.len() as int;
        lemma_pow_step(16, init.len());
        assert(m / 1 == m && n / 1 == n);
        assert(is_digit_of(text[k - 1], m / pow16(0) % 16));
        assert(is_digit_of(text[k - 1], n / pow16(0) % 16));
        lemma_digit_value(text[k - 1], m % 16);
        lemma_digit_value(text[k - 1], n % 16);
        assert forall|i: int| 0 <= i < init.len() implies is_digit_of(
            #[trigger] init[i],
            (m / 16) / pow16(init.len() - 1 - i) % 16,
        ) && is_digit_of(init[i], (n / 16) / pow16(init.len() - 1 - i) % 16) by {
            assert(init[i] == text[i]);
            lemma_pow_step(16, (k - 2 - i) as nat);
            lemma_div_denominator(m, 16, pow16(k - 2 - i));
            lemma_div_denominator(n, 16, pow16(k - 2 - i));
        }
        lemma_digits_tell_number(m / 16, n / 16, init);
    }
}

/// A text is read as a number exactly where, but for a plus sign at its front, it is
/// the digits of that number and at least one.
pub proof fn law_number_is_read_digit_by_digit(s: Seq<char>, n: u32)
    ensures
        hex_u32(s) == Some(n) <==> unsigned(s).len() > 0 && has_digits(n as int, unsigned(s)),
{
    let text = unsigned(s);
    assert(after_plus(encode_utf8(s)) =~= text);
    lemma_numeral_has_digits(text);
    if has_digits(n as int, text) {
        match hex_numeral(text) {
            Some(v) => {
                lemma_digits_tell_number(n as int, v as int, text);
            },
            None => {
                let i = choose|i: int| 0 <= i < text.len() && !is_digit(text[i]);
                assert(is_digit_of(text[i], n as int / pow16(text.len() - 1 - i) % 16));
            },
        }
    }
}

}
