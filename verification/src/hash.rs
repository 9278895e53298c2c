use vstd::prelude::*;
use crate::cgimage::CGImage;
use crate::errs::Error;

verus! {

/// The sum of all sample values of a buffer.
pub open spec fn sum_of(s: Seq<u8>) -> int
    decreases s.len(),
{
    if s.len() == 0 {
        0
    } else {
        sum_of(s.drop_last()) + s.last()
    }
}

/// Whether bit `i` of a fingerprint is set.
pub open spec fn hash_bit(h: u64, i: int) -> bool {
    (h >> (i as u64)) & 1 == 1
}

/// Average-hash criterion for sample `i`: the sample exceeds the arithmetic
/// mean of all 64 samples. Stated over integers: `s[i] > sum / 64` with a
/// fractional mean is exactly `64 * s[i] > sum`.
pub open spec fn ahash_bit(s: Seq<u8>, i: int) -> bool {
    64 * (s[i] as int) > sum_of(s)
}

/// Difference-hash criterion for output bit `i = r*8 + c`: sample (r, c) of
/// the 9-wide grid is strictly greater than its right neighbour (r, c+1).
pub open spec fn dhash_bit(s: Seq<u8>, i: int) -> bool {
    (s[(i / 8) * 9 + (i % 8)] as int) > (s[(i / 8) * 9 + (i % 8) + 1] as int)
}

/// The fingerprint whose bits `0..n` follow the average-hash criterion and
/// whose bits `n..64` are clear.
pub open spec fn ahash_rec(s: Seq<u8>, n: int) -> u64
    decreases n,
{
    if n <= 0 {
        0u64
    } else {
        ahash_rec(s, n - 1) | (if ahash_bit(s, n - 1) {
            1u64 << ((n - 1) as u64)
        } else {
            0u64
        })
    }
}

/// The fingerprint whose bits `0..n` follow the difference-hash criterion and
/// whose bits `n..64` are clear.
pub open spec fn dhash_rec(s: Seq<u8>, n: int) -> u64
    decreases n,
{
    if n <= 0 {
        0u64
    } else {
        dhash_rec(s, n - 1) | (if dhash_bit(s, n - 1) {
            1u64 << ((n - 1) as u64)
        } else {
            0u64
        })
    }
}

/// The 64-bit average hash of a 64-sample grayscale buffer: bit `i` is set
/// iff sample `i` exceeds the mean of all samples.
pub open spec fn ahash_of(s: Seq<u8>) -> u64 {
    ahash_rec(s, 64)
}

/// The 64-bit difference hash of a 72-sample (9 wide, 8 tall) grayscale
/// buffer: bit `r*8 + c` is set iff sample `r*9 + c` strictly exceeds sample
/// `r*9 + c + 1`.
pub open spec fn dhash_of(s: Seq<u8>) -> u64 {
    dhash_rec(s, 64)
}

proof fn lemma_bv_or_set(x: u64, k: u64)
    by (bit_vector)
    requires
        k < 64,
    ensures
        ((x | (1u64 << k)) >> k) & 1 == 1,
{
}

proof fn lemma_bv_or_other(x: u64, k: u64, j: u64)
    by (bit_vector)
    requires
        k < 64,
        j < 64,
        j != k,
    ensures
        ((x | (1u64 << k)) >> j) & 1 == (x >> j) & 1,
{
}

proof fn lemma_bv_zero(j: u64)
    by (bit_vector)
    requires
        j < 64,
    ensures
        (0u64 >> j) & 1 == 0,
{
}

proof fn lemma_bv_or_zero(x: u64)
    by (bit_vector)
    ensures
        x | 0u64 == x,
{
}

/// Bits `0..n` of the partial average hash follow the per-sample criterion;
/// bits `n..64` are clear.
pub proof fn lemma_ahash_rec_bits(s: Seq<u8>, n: int)
    requires
        0 <= n <= 64,
    ensures
        forall|i: int| 0 <= i < n ==> #[trigger] hash_bit(ahash_rec(s, n), i) == ahash_bit(s, i),
        forall|i: int| n <= i < 64 ==> !(#[trigger] hash_bit(ahash_rec(s, n), i)),
    decreases n,
{
    if n == 0 {
        assert forall|i: int| 0 <= i < 64 implies !(#[trigger] hash_bit(ahash_rec(s, 0), i)) by {
            lemma_bv_zero(i as u64);
        }
    } else {
        lemma_ahash_rec_bits(s, n - 1);
        let prev = ahash_rec(s, n - 1);
        let cur = ahash_rec(s, n);
        if ahash_bit(s, n - 1) {
            assert forall|i: int| 0 <= i < 64 && i != n - 1 implies #[trigger] hash_bit(cur, i)
                == hash_bit(prev, i) by {
                lemma_bv_or_other(prev, (n - 1) as u64, i as u64);
            }
            lemma_bv_or_set(prev, (n - 1) as u64);
        } else {
            lemma_bv_or_zero(prev);
        }
    }
}

/// Bits `0..n` of the partial difference hash follow the per-pair criterion;
/// bits `n..64` are clear.
pub proof fn lemma_dhash_rec_bits(s: Seq<u8>, n: int)
    requires
        0 <= n <= 64,
    ensures
        forall|i: int| 0 <= i < n ==> #[trigger] hash_bit(dhash_rec(s, n), i) == dhash_bit(s, i),
        forall|i: int| n <= i < 64 ==> !(#[trigger] hash_bit(dhash_rec(s, n), i)),
    decreases n,
{
    if n == 0 {
        assert forall|i: int| 0 <= i < 64 implies !(#[trigger] hash_bit(dhash_rec(s, 0), i)) by {
            lemma_bv_zero(i as u64);
        }
    } else {
        lemma_dhash_rec_bits(s, n - 1);
        let prev = dhash_rec(s, n - 1);
        let cur = dhash_rec(s, n);
        if dhash_bit(s, n - 1) {
            assert forall|i: int| 0 <= i < 64 && i != n - 1 implies #[trigger] hash_bit(cur, i)
                == hash_bit(prev, i) by {
                lemma_bv_or_other(prev, (n - 1) as u64, i as u64);
            }
            lemma_bv_or_set(prev, (n - 1) as u64);
        } else {
            lemma_bv_or_zero(prev);
        }
    }
}

impl CGImage {
    /// Average hash of an 8x8 single-channel buffer: bit `i` (row-major,
    /// bit 0 = top-left) is set iff sample `i` exceeds the mean of all 64
    /// samples. A buffer of any other shape is refused: no fingerprint is
    /// computed over a mis-sized buffer.
    pub fn ahash_bits(&self) -> (r: Result<u64, Error>)
        requires
            self.wf(),
        ensures
            self.spec_components() != 1 ==> r == Err::<u64, Error>(Error::UnsupportedColorModel),
            self.spec_components() == 1 && !(self.spec_width() == 8 && self.spec_height() == 8)
                ==> r == Err::<u64, Error>(Error::BufferSizeMismatch),
            self.is_grayscale() && self.spec_width() == 8 && self.spec_height() == 8 ==> r
                == Ok::<u64, Error>(ahash_of(self.spec_data())),
    {
        if self.components() != 1 {
            return Err(Error::UnsupportedColorModel);
        }
        if self.width() != 8 || self.height() != 8 {
            return Err(Error::BufferSizeMismatch);
        }
        let d = self.raw_data();
        let mut sum: u32 = 0;
        let mut i: usize = 0;
        while i < 64
            invariant
                d@.len() == 64,
                i <= 64,
                sum == sum_of(d@.take(i as int)),
                sum <= 255 * i,
            decreases 64 - i,
        {
            proof {
                assert(d@.take(i as int + 1).drop_last() =~= d@.take(i as int));
                assert(d@.take(i as int + 1).last() == d@[i as int]);
            }
            sum = sum + (d[i] as u32);
            i += 1;
        }
        proof {
            assert(d@.take(64) =~= d@);
        }
        let mut hsh: u64 = 0;
        let mut idx: usize = 0;
        while idx < 64
            invariant
                d@.len() == 64,
                idx <= 64,
                sum == sum_of(d@),
                sum <= 16320,
                hsh == ahash_rec(d@, idx as int),
            decreases 64 - idx,
        {
            if 64 * (d[idx] as u32) > sum {
                hsh = hsh | (1u64 << (idx as u64));
            } else {
                proof {
                    lemma_bv_or_zero(hsh);
                }
            }
            idx += 1;
        }
        Ok(hsh)
    }

    /// Difference hash of a 9-wide, 8-tall single-channel buffer: bit
    /// `r*8 + c` is set iff the sample at grid position (r, c) strictly
    /// exceeds its right neighbour at (r, c+1). A buffer of any other shape
    /// is refused: no fingerprint is computed over a mis-sized buffer.
    pub fn dhash_bits(&self) -> (r: Result<u64, Error>)
        requires
            self.wf(),
        ensures
            self.spec_components() != 1 ==> r == Err::<u64, Error>(Error::UnsupportedColorModel),
            self.spec_components() == 1 && !(self.spec_width() == 9 && self.spec_height() == 8)
                ==> r == Err::<u64, Error>(Error::BufferSizeMismatch),
            self.is_grayscale() && self.spec_width() == 9 && self.spec_height() == 8 ==> r
                == Ok::<u64, Error>(dhash_of(self.spec_data())),
    {
        if self.components() != 1 {
            return Err(Error::UnsupportedColorModel);
        }
        if self.width() != 9 || self.height() != 8 {
            return Err(Error::BufferSizeMismatch);
        }
        let d = self.raw_data();
        let mut hsh: u64 = 0;
        let mut idx: usize = 0;
        while idx < 64
            invariant
                d@.len() == 72,
                idx <= 64,
                hsh == dhash_rec(d@, idx as int),
            decreases 64 - idx,
        {
            let row = idx / 8;
            let col = idx % 8;
            let left = d[row * 9 + col];
            let right = d[row * 9 + col + 1];
            if left > right {
                hsh = hsh | (1u64 << (idx as u64));
            } else {
                proof {
                    lemma_bv_or_zero(hsh);
                }
            }
            idx += 1;
        }
        Ok(hsh)
    }
}

} // verus!
