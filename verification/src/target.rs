//! Proof-of-work targets, for the network (compact `bits`) and for shares.

use vstd::prelude::*;

use crate::bytes::{
    be_value, bytes_span, law_be_value_is_le_of_reverse, law_be_value_tells_apart, le_bytes, le_value,
    lemma_be_value_concat, lemma_le_bytes_len, lemma_le_value_concat, lemma_zeros_value, zeros,
};

verus! {

/// The exponent of a compact target: its highest byte.
pub open spec fn compact_exponent(bits: u32) -> nat {
    bits as nat / 0x100_0000
}

/// The mantissa of a compact target: its three lower bytes.
pub open spec fn compact_mantissa(bits: u32) -> nat {
    bits as nat % 0x100_0000
}

/// The number that compact `bits` stand for: the mantissa times a power of 256,
/// or zero where the exponent leaves no room for three bytes among 32.
pub open spec fn compact_value(bits: u32) -> nat {
    let exponent = compact_exponent(bits);
    if 3 <= exponent <= 32 {
        compact_mantissa(bits) * bytes_span((exponent - 3) as nat)
    } else {
        0
    }
}

/// The 32 bytes, highest first, of the number that compact `bits` stand for.
pub open spec fn compact_bytes(bits: u32) -> Seq<u8> {
    let exponent = compact_exponent(bits);
    let mantissa = compact_mantissa(bits);
    if 3 <= exponent <= 32 {
        zeros((32 - exponent) as nat) + seq![
            (mantissa / 0x1_0000) as u8,
            (mantissa / 0x100 % 0x100) as u8,
            (mantissa % 0x100) as u8,
        ] + zeros((exponent - 3) as nat)
    } else {
        zeros(32)
    }
}

/// Expands compact `bits` into a 32-byte target, highest byte first.
pub fn bits_to_target(bits: u32) -> (r: [u8; 32])
    ensures
        r@ == compact_bytes(bits),
{
    let mut t = [0u8; 32];
    assert(t@ =~= zeros(32));
    let exponent: usize = (bits / 0x100_0000) as usize;
    let mantissa: u32 = bits % 0x100_0000;
    if exponent < 3 || exponent > 32 || mantissa == 0 {
        proof {
            if mantissa == 0 {
                assert(t@ =~= compact_bytes(bits));
            }
        }
        return t;
    }
    let off: usize = 32 - exponent;
    t[off] = (mantissa / 0x1_0000) as u8;
    t[off + 1] = (mantissa / 0x100 % 0x100) as u8;
    t[off + 2] = (mantissa % 0x100) as u8;
    assert(t@ =~= compact_bytes(bits));
    t
}

/// The target of compact `bits`, read as a number, is the number they stand for.
pub proof fn law_compact_target_value(bits: u32)
    ensures
        compact_bytes(bits).len() == 32,
        be_value(compact_bytes(bits)) == compact_value(bits),
{
    let exponent = compact_exponent(bits);
    let m = compact_mantissa(bits);
    if 3 <= exponent <= 32 {
        let head = zeros((32 - exponent) as nat);
        let mid = seq![(m / 0x1_0000) as u8, (m / 0x100 % 0x100) as u8, (m % 0x100) as u8];
        let tail = zeros((exponent - 3) as nat);
        lemma_zeros_value(head.len());
        lemma_zeros_value(tail.len());
        lemma_be_value_concat(head, mid);
        lemma_be_value_concat(head + mid, tail);
        assert(0 * bytes_span(3) == 0);
        assert(be_value(mid) == m) by {
            reveal_with_fuel(be_value, 4);
            assert(mid.drop_last() == seq![mid[0], mid[1]]);
            assert(mid.drop_last().drop_last() == seq![mid[0]]);
            assert(mid.drop_last().drop_last().drop_last() == Seq::<u8>::empty());
        }
    } else {
        lemma_zeros_value(32);
    }
}

proof fn lemma_be_order(a: Seq<u8>, b: Seq<u8>, n: int)
    requires
        a.len() == b.len(),
        0 <= n < a.len(),
        a.take(n) == b.take(n),
        a[n] < b[n],
    ensures
        be_value(a) < be_value(b),
    decreases a.len(),
{
    if n == a.len() - 1 {
        assert(a.drop_last() == a.take(n));
        assert(b.drop_last() == b.take(n));
    } else {
        assert(a.drop_last().take(n) == a.take(n));
        assert(b.drop_last().take(n) == b.take(n));
        lemma_be_order(a.drop_last(), b.drop_last(), n);
    }
}

/// Whether a hash, read highest byte first, is at most a target.
pub fn hash_meets_target(hash: &[u8; 32], target: &[u8; 32]) -> (r: bool)
    ensures
        r == (be_value(hash@) <= be_value(target@)),
{
    let mut i: usize = 0;
    while i < 32
        invariant
            i <= 32,
            hash@.take(i as int) == target@.take(i as int),
        decreases 32 - i,
    {
        if hash[i] != target[i] {
            proof {
                if hash@[i as int] < target@[i as int] {
                    lemma_be_order(hash@, target@, i as int);
                } else {
                    lemma_be_order(target@, hash@, i as int);
                }
            }
            return hash[i] < target[i];
        }
        i = i + 1;
        assert(hash@.take(i as int) =~= target@.take(i as int)) by {
            assert(hash@.take(i as int) =~= hash@.take(i - 1).push(hash@[i - 1]));
            assert(target@.take(i as int) =~= target@.take(i - 1).push(target@[i - 1]));
        }
    }
    assert(hash@ == hash@.take(32));
    assert(target@ == target@.take(32));
    true
}

/// Compact `bits` without a usable exponent or with a zero mantissa give a
/// target that only the all-zero hash meets.
pub proof fn law_void_bits_admit_only_zero(bits: u32, hash: Seq<u8>)
    requires
        hash.len() == 32,
        compact_exponent(bits) < 3 || compact_exponent(bits) > 32 || compact_mantissa(bits) == 0,
    ensures
        be_value(hash) <= be_value(compact_bytes(bits)) <==> hash == zeros(32),
{
    law_compact_target_value(bits);
    lemma_zeros_value(32);
    if compact_mantissa(bits) == 0 && 3 <= compact_exponent(bits) <= 32 {
        let span = bytes_span((compact_exponent(bits) - 3) as nat);
        assert(0 * span == 0) by (nonlinear_arith);
    }
    if be_value(hash) == 0 {
        law_be_value_tells_apart(hash, zeros(32));
    }
}

/// The share target of a quotient (the largest share value divided by the
/// difficulty): its lowest six bytes, lowest first, above 26 zero bytes.
pub open spec fn share_target(quotient: u64) -> Seq<u8> {
    zeros(26) + le_bytes(quotient as nat, 6)
}

/// Places the quotient of the largest share value by a difficulty in a 32-byte
/// target, lowest byte first.
pub fn diff_to_target(quotient: u64) -> (r: [u8; 32])
    ensures
        r@ == share_target(quotient),
{
    let mut t = [0u8; 32];
    t[26] = (quotient % 256) as u8;
    t[27] = (quotient / 256 % 256) as u8;
    t[28] = (quotient / 256 / 256 % 256) as u8;
    t[29] = (quotient / 256 / 256 / 256 % 256) as u8;
    t[30] = (quotient / 256 / 256 / 256 / 256 % 256) as u8;
    t[31] = (quotient / 256 / 256 / 256 / 256 / 256 % 256) as u8;
    proof {
        reveal_with_fuel(le_bytes, 7);
        assert(t@ =~= share_target(quotient));
    }
    t
}

proof fn lemma_le_bytes_value(n: nat, k: nat)
    ensures
        le_value(le_bytes(n, k)) == n % bytes_span(k),
        bytes_span(k) > 0,
    decreases k,
{
    if k > 0 {
        let rest = (k - 1) as nat;
        lemma_le_bytes_value(n / 256, rest);
        assert(le_bytes(n, k).drop_first() == le_bytes(n / 256, rest));
        let span = bytes_span(rest);
        assert(n % (256 * span) == n % 256 + 256 * (n / 256 % span)) by (nonlinear_arith)
            requires
                span > 0,
        {
            let q = n / 256;
            assert(q == span * (q / span) + q % span);
            assert(n == 256 * q + n % 256);
            assert(256 * (span * (q / span)) == (256 * span) * (q / span));
            vstd::arithmetic::div_mod::lemma_fundamental_div_mod_converse(
                n as int,
                (256 * span) as int,
                (q / span) as int,
                (n % 256 + 256 * (q % span)) as int,
            );
        }
    }
}

/// A share target read as a number is the quotient, cut to 48 bits, times 256
/// to the 26th.
pub proof fn law_share_target_value(quotient: u64)
    ensures
        share_target(quotient).len() == 32,
        le_value(share_target(quotient)) == bytes_span(26) * (quotient as nat % 0x1_0000_0000_0000),
{
    lemma_le_bytes_len(quotient as nat, 6);
    lemma_le_bytes_value(quotient as nat, 6);
    lemma_zeros_value(26);
    lemma_le_value_concat(zeros(26), le_bytes(quotient as nat, 6));
    reveal_with_fuel(bytes_span, 7);
    assert(bytes_span(6) == 0x1_0000_0000_0000);
}

/// Whether a hash, read lowest byte first, is at most the share target of a
/// quotient.
pub fn hash_meets_diff(hash: &[u8; 32], quotient: u64) -> (r: bool)
    ensures
        r == (le_value(hash@) <= le_value(share_target(quotient))),
{
    let target = diff_to_target(quotient);
    let mut i: usize = 32;
    proof {
        law_be_value_is_le_of_reverse(hash@.reverse());
        law_be_value_is_le_of_reverse(target@.reverse());
        assert(hash@.reverse().reverse() == hash@);
        assert(target@.reverse().reverse() == target@);
    }
    while i > 0
        invariant
            i <= 32,
            forall|k: int| i <= k < 32 ==> hash@[k] == target@[k],
            be_value(hash@.reverse()) == le_value(hash@),
            be_value(target@.reverse()) == le_value(target@),
            target@ == share_target(quotient),
        decreases i,
    {
        i = i - 1;
        if hash[i] != target[i] {
            proof {
                let h = hash@.reverse();
                let t = target@.reverse();
                let n = 31 - i;
                assert(h.take(n) =~= t.take(n));
                if hash@[i as int] < target@[i as int] {
                    lemma_be_order(h, t, n);
                } else {
                    lemma_be_order(t, h, n);
                }
            }
            return hash[i] < target[i];
        }
    }
    assert(hash@ =~= target@);
    true
}

}
