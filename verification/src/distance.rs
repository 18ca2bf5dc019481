//! The XOR sum of two byte sequences, and when it counts the positions that differ.

use crate::digits::all_digit_codes;
use crate::digits::is_digit_code;
use vstd::prelude::*;

verus! {

/// The sum over all positions of the XOR of the two bytes there.
pub open spec fn xor_sum(a: Seq<u8>, b: Seq<u8>) -> nat
    recommends
        a.len() == b.len(),
    decreases a.len(),
{
    if a.len() == 0 {
        0
    } else {
        xor_sum(a.drop_last(), b.drop_last()) + (a.last() ^ b.last()) as nat
    }
}

/// The number of positions at which `a` and `b` hold different bytes.
pub open spec fn differing_positions(a: Seq<u8>, b: Seq<u8>) -> nat
    recommends
        a.len() == b.len(),
    decreases a.len(),
{
    if a.len() == 0 {
        0
    } else {
        differing_positions(a.drop_last(), b.drop_last()) + if a.last() != b.last() {
            1nat
        } else {
            0nat
        }
    }
}

/// The XOR sum of a sequence with itself is zero.
pub proof fn lemma_xor_sum_self(a: Seq<u8>)
    ensures
        xor_sum(a, a) == 0,
    decreases a.len(),
{
    if a.len() > 0 {
        lemma_xor_sum_self(a.drop_last());
        let x = a.last();
        assert(x ^ x == 0) by (bit_vector);
    }
}

/// The XOR sum of two sequences of one length does not depend on their order.
pub proof fn lemma_xor_sum_symmetric(a: Seq<u8>, b: Seq<u8>)
    requires
        a.len() == b.len(),
    ensures
        xor_sum(a, b) == xor_sum(b, a),
    decreases a.len(),
{
    if a.len() > 0 {
        lemma_xor_sum_symmetric(a.drop_last(), b.drop_last());
        let x = a.last();
        let y = b.last();
        assert(x ^ y == y ^ x) by (bit_vector);
    }
}

/// On two sequences of digit codes the XOR sum is the number of differing positions.
pub proof fn lemma_xor_sum_counts(a: Seq<u8>, b: Seq<u8>)
    requires
        a.len() == b.len(),
        all_digit_codes(a),
        all_digit_codes(b),
    ensures
        xor_sum(a, b) == differing_positions(a, b),
    decreases a.len(),
{
    if a.len() > 0 {
        lemma_xor_sum_counts(a.drop_last(), b.drop_last());
        let x = a.last();
        let y = b.last();
        assert(is_digit_code(x) && is_digit_code(y));
        assert((x ^ y) == (if x != y { 1u8 } else { 0u8 })) by (bit_vector)
            requires
                x == 48 || x == 49,
                y == 48 || y == 49,
        ;
    }
}

/// No more positions differ than there are.
pub proof fn lemma_differing_positions_bound(a: Seq<u8>, b: Seq<u8>)
    ensures
        differing_positions(a, b) <= a.len(),
    decreases a.len(),
{
    if a.len() > 0 {
        lemma_differing_positions_bound(a.drop_last(), b.drop_last());
    }
}

} // verus!
