//! Text: white space, trimming and equality of string slices.

use vstd::prelude::*;
use vstd::string::StrSliceExecFns;

verus! {

/// The characters with the Unicode property `White_Space`.
pub open spec fn is_space(c: char) -> bool {
    ||| '\u{9}' <= c <= '\u{d}'
    ||| c == '\u{20}'
    ||| c == '\u{85}'
    ||| c == '\u{a0}'
    ||| c == '\u{1680}'
    ||| '\u{2000}' <= c <= '\u{200a}'
    ||| c == '\u{2028}'
    ||| c == '\u{2029}'
    ||| c == '\u{202f}'
    ||| c == '\u{205f}'
    ||| c == '\u{3000}'
}

/// Whether a text is nothing but white space.
pub open spec fn is_blank_text(s: Seq<char>) -> bool {
    forall|i: int| 0 <= i < s.len() ==> is_space(#[trigger] s[i])
}

/// A text without the white space at its two ends.
pub open spec fn trimmed(s: Seq<char>) -> Seq<char>
    decreases s.len(),
{
    if s.len() == 0 {
        s
    } else if is_space(s.first()) {
        trimmed(s.drop_first())
    } else if is_space(s.last()) {
        trimmed(s.drop_last())
    } else {
        s
    }
}

/// Tells white space from other characters.
pub fn char_is_space(c: char) -> (r: bool)
    ensures
        r == is_space(c),
{
    ('\u{9}' <= c && c <= '\u{d}') || c == '\u{20}' || c == '\u{85}' || c == '\u{a0}' || c
        == '\u{1680}' || ('\u{2000}' <= c && c <= '\u{200a}') || c == '\u{2028}' || c == '\u{2029}'
        || c == '\u{202f}' || c == '\u{205f}' || c == '\u{3000}'
}

/// The characters of a text, in order.
pub fn chars_of(s: &str) -> (r: Vec<char>)
    ensures
        r@ == s@,
{
    let mut out: Vec<char> = Vec::new();
    for c in it: s.chars()
        invariant
            it.seq() == s@,
            out@ == s@.take(it.index() as int),
    {
        out.push(c);
    }
    out
}

/// White space at the front may be taken off before trimming.
proof fn lemma_trimmed_front(s: Seq<char>, from: int)
    requires
        0 <= from <= s.len(),
        forall|i: int| 0 <= i < from ==> is_space(#[trigger] s[i]),
    ensures
        trimmed(s) == trimmed(s.skip(from)),
    decreases from,
{
    if from == 0 {
        assert(s.skip(0) == s);
    } else {
        let rest = s.drop_first();
        assert forall|i: int| 0 <= i < from - 1 implies is_space(#[trigger] rest[i]) by {
            assert(rest[i] == s[i + 1]);
        }
        lemma_trimmed_front(rest, from - 1);
        assert(is_space(s[0]));
        assert(rest.skip(from - 1) == s.skip(from));
    }
}

proof fn lemma_trimmed_back(s: Seq<char>, to: int)
    requires
        0 < to <= s.len(),
        !is_space(s[0]),
        !is_space(s[to - 1]),
        forall|i: int| to <= i < s.len() ==> is_space(#[trigger] s[i]),
    ensures
        trimmed(s) == s.take(to),
    decreases s.len(),
{
    if to == s.len() {
        assert(s.take(to) == s);
    } else {
        let rest = s.drop_last();
        assert(is_space(s[s.len() - 1]));
        lemma_trimmed_back(rest, to);
        assert(rest.take(to) == s.take(to));
    }
}

/// Takes the white space off both ends of a text.
pub fn trim(s: &str) -> (r: &str)
    ensures
        r@ == trimmed(s@),
{
    let chars = chars_of(s);
    let len: usize = chars.len();
    let mut from: usize = 0;
    while from < len && char_is_space(chars[from])
        invariant
            from <= len,
            len == chars@.len(),
            forall|i: int| 0 <= i < from ==> is_space(#[trigger] chars@[i]),
        decreases len - from,
    {
        from = from + 1;
    }
    proof {
        lemma_trimmed_front(s@, from as int);
    }
    let mut to: usize = len;
    while from < to && char_is_space(chars[to - 1])
        invariant
            from <= to <= len,
            len == chars@.len(),
            from < len ==> !is_space(chars@[from as int]),
            from < len ==> from < to,
            forall|i: int| to <= i < len ==> is_space(#[trigger] chars@[i]),
        decreases to - from,
    {
        to = to - 1;
    }
    proof {
        let rest = s@.skip(from as int);
        if from < len {
            lemma_trimmed_back(rest, to - from);
            assert(rest.take(to - from) == s@.subrange(from as int, to as int));
        } else {
            assert(rest == s@.subrange(from as int, to as int));
        }
    }
    s.substring_char(from, to)
}

/// Whether a text is nothing but white space.
pub fn is_blank(s: &str) -> (r: bool)
    ensures
        r == is_blank_text(s@),
{
    let chars = chars_of(s);
    let mut i: usize = 0;
    while i < chars.len()
        invariant
            i <= chars@.len(),
            chars@ == s@,
            forall|k: int| 0 <= k < i ==> is_space(#[trigger] s@[k]),
        decreases chars@.len() - i,
    {
        if !char_is_space(chars[i]) {
            assert(!is_space(s@[i as int]));
            return false;
        }
        i = i + 1;
    }
    true
}

/// Whether two texts are the same.
pub fn same_text(a: &str, b: &str) -> (r: bool)
    ensures
        r == (a@ == b@),
{
    a.to_owned() == b.to_owned()
}

/// Nothing is left of a text by trimming exactly when it is all white space.
pub proof fn law_blank_trims_to_nothing(s: Seq<char>)
    ensures
        is_blank_text(s) <==> trimmed(s).len() == 0,
    decreases s.len(),
{
    if s.len() > 0 {
        if is_space(s.first()) {
            let rest = s.drop_first();
            law_blank_trims_to_nothing(rest);
            if is_blank_text(rest) {
                assert forall|i: int| 0 <= i < s.len() implies is_space(#[trigger] s[i]) by {
                    if i > 0 {
                        assert(s[i] == rest[i - 1]);
                    }
                }
            }
            if is_blank_text(s) {
                assert forall|i: int| 0 <= i < rest.len() implies is_space(#[trigger] rest[i]) by {
                    assert(rest[i] == s[i + 1]);
                }
            }
        } else {
            assert(!is_space(s[0]));
            if is_space(s.last()) {
                law_blank_trims_to_nothing(s.drop_last());
                assert(s.drop_last().len() > 0);
                assert(s.drop_last()[0] == s[0]);
            }
        }
    }
}

}
