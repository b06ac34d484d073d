//! Byte strings read as numbers, in either byte order.

use vstd::prelude::*;

verus! {

/// `256` to the power `k`: the number of byte strings of length `k`.
pub open spec fn bytes_span(k: nat) -> nat
    decreases k,
{
    if k == 0 {
        1
    } else {
        256 * bytes_span((k - 1) as nat)
    }
}

/// The number that a byte string stands for with its first byte the lowest.
pub open spec fn le_value(s: Seq<u8>) -> nat
    decreases s.len(),
{
    if s.len() == 0 {
        0
    } else {
        s.first() as nat + 256 * le_value(s.drop_first())
    }
}

/// The number that a byte string stands for with its first byte the highest.
pub open spec fn be_value(s: Seq<u8>) -> nat
    decreases s.len(),
{
    if s.len() == 0 {
        0
    } else {
        256 * be_value(s.drop_last()) + s.last() as nat
    }
}

/// The lowest `k` bytes of a number, lowest first.
pub open spec fn le_bytes(n: nat, k: nat) -> Seq<u8>
    decreases k,
{
    if k == 0 {
        Seq::empty()
    } else {
        seq![(n % 256) as u8] + le_bytes(n / 256, (k - 1) as nat)
    }
}

/// `k` zero bytes.
pub open spec fn zeros(k: nat) -> Seq<u8> {
    Seq::new(k, |i: int| 0u8)
}

pub proof fn lemma_le_bytes_len(n: nat, k: nat)
    ensures
        le_bytes(n, k).len() == k,
    decreases k,
{
    if k > 0 {
        lemma_le_bytes_len(n / 256, (k - 1) as nat);
    }
}

/// A number below the span of `k` bytes is read back from its `k` lowest bytes.
pub proof fn law_le_bytes_read_back(n: nat, k: nat)
    requires
        n < bytes_span(k),
    ensures
        le_bytes(n, k).len() == k,
        le_value(le_bytes(n, k)) == n,
    decreases k,
{
    if k > 0 {
        law_le_bytes_read_back(n / 256, (k - 1) as nat);
        assert(le_bytes(n, k).drop_first() == le_bytes(n / 256, (k - 1) as nat));
    }
}

/// A byte string is read back from the number it stands for.
pub proof fn law_le_value_read_back(s: Seq<u8>)
    ensures
        le_value(s) < bytes_span(s.len()),
        le_bytes(le_value(s), s.len()) == s,
    decreases s.len(),
{
    if s.len() > 0 {
        let rest = s.drop_first();
        law_le_value_read_back(rest);
        assert(le_value(s) % 256 == s.first());
        assert(le_value(s) / 256 == le_value(rest));
        assert(seq![s.first()] + rest == s);
    }
}

/// Reading a byte string highest byte first is reading its reverse lowest byte
/// first.
pub proof fn law_be_value_is_le_of_reverse(s: Seq<u8>)
    ensures
        be_value(s) == le_value(s.reverse()),
    decreases s.len(),
{
    if s.len() > 0 {
        law_be_value_is_le_of_reverse(s.drop_last());
        assert(s.reverse().drop_first() == s.drop_last().reverse());
    }
}

/// Two byte strings of one length that stand for the same number are equal.
pub proof fn law_be_value_tells_apart(a: Seq<u8>, b: Seq<u8>)
    requires
        a.len() == b.len(),
        be_value(a) == be_value(b),
    ensures
        a == b,
{
    law_be_value_is_le_of_reverse(a);
    law_be_value_is_le_of_reverse(b);
    law_le_value_read_back(a.reverse());
    law_le_value_read_back(b.reverse());
    assert forall|i: int| 0 <= i < a.len() implies a[i] == b[i] by {
        assert(a[i] == a.reverse()[a.len() - 1 - i]);
        assert(b[i] == b.reverse()[b.len() - 1 - i]);
    }
    assert(a =~= b);
}

pub proof fn lemma_be_value_bound(s: Seq<u8>)
    ensures
        be_value(s) < bytes_span(s.len()),
{
    law_be_value_is_le_of_reverse(s);
    law_le_value_read_back(s.reverse());
}

/// A byte string splits into a high and a low part.
pub proof fn lemma_be_value_concat(a: Seq<u8>, b: Seq<u8>)
    ensures
        be_value(a + b) == be_value(a) * bytes_span(b.len()) + be_value(b),
    decreases b.len(),
{
    if b.len() == 0 {
        assert(a + b == a);
        assert(be_value(a) * 1 == be_value(a)) by (nonlinear_arith);
    } else {
        let c = b.drop_last();
        lemma_be_value_concat(a, c);
        assert((a + b).drop_last() == a + c);
        assert((a + b).last() == b.last());
        let va = be_value(a);
        let span = bytes_span(c.len());
        assert(256 * (va * span) == va * (256 * span)) by (nonlinear_arith);
    }
}

pub proof fn lemma_le_value_concat(a: Seq<u8>, b: Seq<u8>)
    ensures
        le_value(a + b) == le_value(a) + bytes_span(a.len()) * le_value(b),
    decreases a.len(),
{
    if a.len() == 0 {
        assert(a + b == b);
        assert(1 * le_value(b) == le_value(b)) by (nonlinear_arith);
    } else {
        let c = a.drop_first();
        lemma_le_value_concat(c, b);
        assert((a + b).drop_first() == c + b);
        assert((a + b).first() == a.first());
        let vb = le_value(b);
        let span = bytes_span(c.len());
        assert(256 * (span * vb) == (256 * span) * vb) by (nonlinear_arith);
    }
}

pub proof fn lemma_zeros_value(k: nat)
    ensures
        be_value(zeros(k)) == 0,
        le_value(zeros(k)) == 0,
    decreases k,
{
    if k > 0 {
        lemma_zeros_value((k - 1) as nat);
        assert(zeros(k).drop_last() == zeros((k - 1) as nat));
        assert(zeros(k).drop_first() == zeros((k - 1) as nat));
    }
}

/// The four bytes of a number, lowest first.
pub fn u32_to_le(n: u32) -> (r: [u8; 4])
    ensures
        r@ == le_bytes(n as nat, 4),
{
    let r = [
        (n % 256) as u8,
        (n / 256 % 256) as u8,
        (n / 256 / 256 % 256) as u8,
        (n / 256 / 256 / 256) as u8,
    ];
    proof {
        reveal_with_fuel(le_bytes, 5);
        assert(r@ =~= le_bytes(n as nat, 4));
    }
    r
}

/// The eight bytes of a number, lowest first.
pub fn u64_to_le(n: u64) -> (r: [u8; 8])
    ensures
        r@ == le_bytes(n as nat, 8),
{
    let n4: u64 = n / 256 / 256 / 256 / 256;
    let r = [
        (n % 256) as u8,
        (n / 256 % 256) as u8,
        (n / 256 / 256 % 256) as u8,
        (n / 256 / 256 / 256 % 256) as u8,
        (n4 % 256) as u8,
        (n4 / 256 % 256) as u8,
        (n4 / 256 / 256 % 256) as u8,
        (n4 / 256 / 256 / 256) as u8,
    ];
    proof {
        reveal_with_fuel(le_bytes, 9);
        assert(r@ =~= le_bytes(n as nat, 8));
    }
    r
}

/// The number that four bytes stand for, lowest first.
pub fn u32_from_le(b: [u8; 4]) -> (r: u32)
    ensures
        r == le_value(b@),
{
    proof {
        reveal_with_fuel(le_value, 5);
    }
    let low: u32 = b[0] as u32 + 256 * b[1] as u32;
    let high: u32 = b[2] as u32 + 256 * b[3] as u32;
    low + 65536 * high
}

/// A copy of a byte string.
pub fn copy_bytes(s: &[u8]) -> (r: Vec<u8>)
    ensures
        r@ == s@,
{
    let mut out: Vec<u8> = Vec::new();
    append_bytes(&mut out, s);
    assert(out@ == s@);
    out
}

/// Appends a byte string to another.
pub fn append_bytes(out: &mut Vec<u8>, s: &[u8])
    ensures
        final(out)@ == old(out)@ + s@,
{
    let mut i: usize = 0;
    assert(out@ == old(out)@ + s@.take(0));
    while i < s.len()
        invariant
            i <= s@.len(),
            out@ == old(out)@ + s@.take(i as int),
        decreases s@.len() - i,
    {
        out.push(s[i]);
        i = i + 1;
        assert(out@ == old(out)@ + s@.take(i as int));
    }
    assert(s@.take(i as int) == s@);
}

/// `n` zero bytes.
pub fn zero_bytes(n: usize) -> (r: Vec<u8>)
    ensures
        r@ == zeros(n as nat),
{
    let mut out: Vec<u8> = Vec::new();
    while out.len() < n
        invariant
            out@.len() <= n,
            out@ == zeros(out@.len()),
        decreases n - out@.len(),
    {
        out.push(0);
    }
    out
}

/// A byte string with the four bytes of each word in reverse order.
pub open spec fn word_swapped(s: Seq<u8>) -> Seq<u8> {
    Seq::new(s.len(), |i: int| s[4 * (i / 4) + 3 - i % 4])
}

/// Reverses the bytes of each of eight four-byte words.
pub fn swap_words(h: &[u8; 32]) -> (r: [u8; 32])
    ensures
        r@ == word_swapped(h@),
{
    let mut out = [0u8; 32];
    let mut i: usize = 0;
    while i < 8
        invariant
            i <= 8,
            forall|k: int| 0 <= k < 4 * i ==> out@[k] == word_swapped(h@)[k],
        decreases 8 - i,
    {
        out[i * 4] = h[i * 4 + 3];
        out[i * 4 + 1] = h[i * 4 + 2];
        out[i * 4 + 2] = h[i * 4 + 1];
        out[i * 4 + 3] = h[i * 4];
        i = i + 1;
    }
    assert(out@ =~= word_swapped(h@));
    out
}

/// Swapping the words of whole words twice changes nothing.
pub proof fn law_word_swap_undoes_itself(s: Seq<u8>)
    requires
        s.len() % 4 == 0,
    ensures
        word_swapped(word_swapped(s)) == s,
{
    assert forall|i: int| 0 <= i < s.len() implies word_swapped(word_swapped(s))[i] == s[i] by {
        let j = 4 * (i / 4) + 3 - i % 4;
        assert(0 <= j < s.len());
        assert(j / 4 == i / 4 && j % 4 == 3 - i % 4);
    }
    assert(word_swapped(word_swapped(s)) =~= s);
}

}
