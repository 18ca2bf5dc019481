//! The vector type, its parser and its distance.

use crate::digits::all_digit_codes;
use crate::digits::all_digits;
use crate::digits::byte_len;
use crate::digits::codes;
use crate::digits::is_digit_code;
use crate::digits::lemma_digits_in_bytes;
use crate::digits::parsed;
use crate::digits::DIGIT_ONE;
use crate::digits::DIGIT_ZERO;
use crate::distance::differing_positions;
use crate::distance::lemma_differing_positions_bound;
use crate::distance::lemma_xor_sum_counts;
use crate::distance::lemma_xor_sum_self;
use crate::distance::lemma_xor_sum_symmetric;
use crate::distance::xor_sum;
use crate::error::BitVecError;
use crate::text::trim;
use crate::text::trimmed;
use core::str::FromStr;
use vstd::prelude::*;
use vstd::utf8::encode_utf8;

verus! {

/// A vector of exactly `N` bytes.
pub struct BitVec<const N: usize> {
    elems: [u8; N],
}

impl<const N: usize> View for BitVec<N> {
    type V = Seq<u8>;

    closed spec fn view(&self) -> Seq<u8> {
        self.elems@
    }
}

impl<const N: usize> BitVec<N> {
    /// Whether the vector holds what a parsed vector holds: at every position the
    /// ASCII code of `'0'` or of `'1'`.
    pub open spec fn is_binary(&self) -> bool {
        all_digit_codes(self@)
    }

    /// What `hamming_distance` returns: the XOR sum, kept in eight bits.
    pub open spec fn spec_hamming_distance(&self, other: &BitVec<N>) -> u8 {
        (xor_sum(self@, other@) % 256) as u8
    }

    /// A vector has `N` positions.
    pub proof fn lemma_len(&self)
        ensures
            self@.len() == N,
    {
    }

    /// Wraps `elems` as they are: no byte is looked at.
    pub fn new(elems: [u8; N]) -> (v: Self)
        ensures
            v@ == elems@,
            v@.len() == N,
            v.is_binary() <==> all_digit_codes(elems@),
    {
        Self { elems }
    }

    /// The stored bytes.
    pub fn elems(&self) -> (e: &[u8; N])
        ensures
            e@ == self@,
    {
        &self.elems
    }

    /// Sums the XOR of the two vectors' bytes, position by position, in an
    /// eight-bit accumulator that wraps.
    pub fn hamming_distance(&self, other: &BitVec<N>) -> (d: u8)
        ensures
            d == self.spec_hamming_distance(other),
            xor_sum(self@, other@) <= u8::MAX ==> d == xor_sum(self@, other@),
            self.is_binary() && other.is_binary() && N <= u8::MAX ==> d
                == differing_positions(self@, other@),
    {
        let mut acc: u8 = 0;
        let mut i: usize = 0;
        while i < N
            invariant
                i <= N,
                self@.len() == N,
                other@.len() == N,
                acc as nat == xor_sum(self@.take(i as int), other@.take(i as int)) % 256,
            decreases N - i,
        {
            let x: u8 = self.elems[i] ^ other.elems[i];
            proof {
                let a = self@.take(i + 1);
                let b = other@.take(i + 1);
                assert(a.drop_last() == self@.take(i as int));
                assert(b.drop_last() == other@.take(i as int));
            }
            acc = acc.wrapping_add(x);
            i += 1;
        }
        proof {
            assert(self@.take(N as int) == self@);
            assert(other@.take(N as int) == other@);
            if self.is_binary() && other.is_binary() {
                lemma_xor_sum_counts(self@, other@);
                lemma_differing_positions_bound(self@, other@);
            }
        }
        acc
    }

    /// Reads a vector from a line of input: the line is trimmed of the white space
    /// at its two ends, line terminator included, and what is left is parsed. The
    /// vector that comes of it holds the codes of `N` digits that stand side by side
    /// in the line.
    pub fn from_line(line: &str) -> (r: Result<Self, BitVecError>)
        ensures
            parsed(trimmed(line@), N as nat) == match r {
                Ok(v) => Ok::<Seq<u8>, BitVecError>(v@),
                Err(e) => Err::<Seq<u8>, BitVecError>(e),
            },
            r matches Ok(v) ==> v.is_binary() && v@.len() == N,
            r matches Ok(v) ==> exists|i: int|
                0 <= i <= line@.len() - N && v@ == codes(#[trigger] line@.subrange(i, i + N)),
    {
        let text = trim(line);
        let r = <Self as FromStr>::from_str(text);
        proof {
            if r is Ok {
                lemma_digits_in_bytes(text@);
                let (i, j) = choose|i: int, j: int|
                    0 <= i <= j <= line@.len() && text@ == #[trigger] line@.subrange(i, j);
                assert(j == i + N);
                assert(r.unwrap()@ == codes(line@.subrange(i, i + N)));
            }
        }
        r
    }
}

impl<const N: usize> FromStr for BitVec<N> {
    type Err = BitVecError;

    /// Reads a vector from `s`: exactly `N` bytes of text, each `'0'` or `'1'`. The
    /// vector holds the characters' ASCII codes. A text of another length in bytes is
    /// an `InvalidLength`, whatever it holds; a text of `N` bytes with another
    /// character in it is an `InvalidValue`.
    fn from_str(s: &str) -> (r: Result<Self, BitVecError>)
        ensures
            parsed(s@, N as nat) == match r {
                Ok(v) => Ok::<Seq<u8>, BitVecError>(v@),
                Err(e) => Err::<Seq<u8>, BitVecError>(e),
            },
            r matches Ok(v) ==> v.is_binary() && v@.len() == N,
            s@.len() == N && all_digits(s@) ==> r is Ok && r.unwrap()@ == codes(s@),
            byte_len(s@) != N ==> r == Err::<BitVec<N>, BitVecError>(BitVecError::InvalidLength),
            byte_len(s@) == N && !all_digits(s@) ==> r == Err::<BitVec<N>, BitVecError>(
                BitVecError::InvalidValue,
            ),
    {
        let bytes = s.as_bytes();
        proof {
            lemma_digits_in_bytes(s@);
        }
        if bytes.len() != N {
            return Err(BitVecError::InvalidLength);
        }
        let mut elems = [0u8; N];
        let mut i: usize = 0;
        while i < N
            invariant
                i <= N,
                bytes@.len() == N,
                bytes@ == encode_utf8(s@),
                all_digits(s@) <==> all_digit_codes(bytes@),
                forall|j: int| 0 <= j < i ==> is_digit_code(#[trigger] bytes@[j]),
                forall|j: int| 0 <= j < i ==> #[trigger] elems@[j] == bytes@[j],
            decreases N - i,
        {
            let b: u8 = bytes[i];
            if b != DIGIT_ZERO && b != DIGIT_ONE {
                return Err(BitVecError::InvalidValue);
            }
            elems[i] = b;
            i += 1;
        }
        assert(elems@ =~= bytes@);
        Ok(BitVec::new(elems))
    }
}

/// Every vector is at distance zero from itself.
pub proof fn lemma_distance_to_self<const N: usize>(v: BitVec<N>)
    ensures
        v.spec_hamming_distance(&v) == 0,
{
    lemma_xor_sum_self(v@);
}

/// The distance from `a` to `b` is the distance from `b` to `a`.
pub proof fn lemma_distance_symmetric<const N: usize>(a: BitVec<N>, b: BitVec<N>)
    ensures
        a.spec_hamming_distance(&b) == b.spec_hamming_distance(&a),
{
    lemma_xor_sum_symmetric(a@, b@);
}

} // verus!
