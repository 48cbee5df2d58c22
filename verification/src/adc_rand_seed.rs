//! Seed composition from raw analog samples.
//!
//! The analog input is left unconnected, so the least-significant bit of
//! each sample is noise.  The seed folds those bits together: the first
//! sample's bit becomes the most significant of the composed bits, every
//! later one is appended as the new least significant bit.

use vstd::prelude::*;

verus! {

/// Largest number of samples a seed can fold: the width of the seed integer.
pub const SEED_WIDTH: usize = 64;

/// What a sample vector holds, first sample first.
pub uninterp spec fn samples_of(v: heapless::Vec<u32, SEED_WIDTH>) -> Seq<u32>;

/// Relies on `heapless::Vec`'s deref to a slice: its length, which never
/// exceeds the capacity.
#[verifier::external_body]
pub(crate) fn samples_len(v: &heapless::Vec<u32, SEED_WIDTH>) -> (n: usize)
    ensures
        n == samples_of(*v).len(),
        n <= SEED_WIDTH,
{
    v.len()
}

/// Relies on `heapless::Vec`'s deref to a slice: indexing.
#[verifier::external_body]
pub(crate) fn samples_get(v: &heapless::Vec<u32, SEED_WIDTH>, index: usize) -> (s: u32)
    requires
        index < samples_of(*v).len(),
    ensures
        s == samples_of(*v)[index as int],
{
    v[index]
}

/// The seed value composed from a sample sequence: fold the samples from
/// the front, shifting the accumulator up and appending each sample's
/// least-significant bit.
pub open spec fn spec_seed(samples: Seq<u32>) -> u64
    decreases samples.len(),
{
    if samples.len() == 0 {
        0u64
    } else {
        (spec_seed(samples.drop_last()) << 1u64) | ((samples.last() & 1u32) as u64)
    }
}

/// Compose the LSBs of each sampled value into a seed value.
#[verifier::loop_isolation(false)]
pub fn adc_seed(vec: &heapless::Vec<u32, SEED_WIDTH>) -> (res: u64)
    ensures
        res == spec_seed(samples_of(*vec)),
{
    let n = samples_len(vec);

    let mut res = 0u64;
    let mut idx: usize = 0;
    while idx < n
        invariant
            idx <= n,
            res == spec_seed(samples_of(*vec).take(idx as int)),
        decreases n - idx,
    {
        let value = samples_get(vec, idx);

        let shifted = res << 1u64;
        proof {
            assert(shifted & 1u64 == 0u64 && shifted <= 0xFFFF_FFFF_FFFF_FFFEu64) by (bit_vector)
                requires
                    shifted == res << 1u64,
            ;
            assert((value & 1u32) == 0u32 || (value & 1u32) == 1u32) by (bit_vector);
            assert(shifted | 1u64 == shifted + 1u64) by (bit_vector)
                requires
                    shifted & 1u64 == 0u64,
            ;
            assert(shifted | 0u64 == shifted) by (bit_vector);
        }
        if (value & 0x01) != 0 {
            res = shifted + 1;
        } else {
            res = shifted;
        }
        idx += 1;
        proof {
            let taken = samples_of(*vec).take(idx as int);
            assert(taken.drop_last() =~= samples_of(*vec).take(idx as int - 1));
            assert(taken.last() == samples_of(*vec)[idx as int - 1]);
        }
    }
    proof {
        assert(samples_of(*vec).take(n as int) =~= samples_of(*vec));
    }
    res
}

/// Bit placement of the composed seed: bit `len - 1 - i` of the result is
/// the least-significant bit of sample `i`.
pub proof fn lemma_seed_bits(s: Seq<u32>, i: int)
    requires
        0 <= i < s.len(),
        s.len() <= 64,
    ensures
        (spec_seed(s) >> ((s.len() - 1 - i) as u64)) & 1u64 == ((s[i] & 1u32) as u64),
    decreases s.len(),
{
    let x = spec_seed(s.drop_last());
    let l = s.last();
    let b: u64 = (l & 1u32) as u64;
    assert((l & 1u32) == 0u32 || (l & 1u32) == 1u32) by (bit_vector);
    if i == s.len() - 1 {
        assert(((x << 1u64) | b) >> 0u64 & 1u64 == b) by (bit_vector)
            requires
                b == 0u64 || b == 1u64,
        ;
    } else {
        lemma_seed_bits(s.drop_last(), i);
        let k = (s.len() - 1 - i) as u64;
        let k1 = (s.drop_last().len() - 1 - i) as u64;
        assert(s.drop_last()[i] == s[i]);
        assert(k == k1 + 1);
        assert((((x << 1u64) | b) >> k) & 1u64 == (x >> k1) & 1u64) by (bit_vector)
            requires
                k == k1 + 1,
                k1 <= 62u64,
                b == 0u64 || b == 1u64,
        ;
    }
}

} // verus!
