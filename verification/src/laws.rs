use vstd::prelude::*;
use vstd::arithmetic::div_mod::lemma_fundamental_div_mod_converse;
use crate::hash::{
    ahash_bit, ahash_of, ahash_rec, dhash_bit, dhash_of, dhash_rec, hash_bit,
    lemma_ahash_rec_bits, lemma_dhash_rec_bits, sum_of,
};
use crate::pipeline::{average_hash_of, difference_hash_of};

verus! {

/// For every 64-sample grayscale buffer, bit `i` of the average hash is set
/// iff sample `i` strictly exceeds the mean of all samples (stated over
/// integers: `64 * s[i] > sum`).
pub proof fn lemma_ahash_bit_semantics(s: Seq<u8>)
    requires
        s.len() == 64,
    ensures
        forall|i: int|
            0 <= i < 64 ==> #[trigger] hash_bit(ahash_of(s), i) == (64 * (s[i] as int)
                > sum_of(s)),
{
    lemma_ahash_rec_bits(s, 64);
}

/// For every 72-sample (9 wide, 8 tall) grayscale buffer, bit `r*8 + c` of
/// the difference hash equals the comparison of sample `r*9 + c` against its
/// right neighbour `r*9 + c + 1`.
pub proof fn lemma_dhash_bit_semantics(s: Seq<u8>)
    requires
        s.len() == 72,
    ensures
        forall|r: int, c: int|
            0 <= r < 8 && 0 <= c < 8 ==> #[trigger] hash_bit(dhash_of(s), r * 8 + c) == ((s[r * 9
                + c] as int) > (s[r * 9 + c + 1] as int)),
{
    lemma_dhash_rec_bits(s, 64);
    assert forall|r: int, c: int| 0 <= r < 8 && 0 <= c < 8 implies #[trigger] hash_bit(
        dhash_of(s),
        r * 8 + c,
    ) == ((s[r * 9 + c] as int) > (s[r * 9 + c + 1] as int)) by {
        let i = r * 8 + c;
        lemma_fundamental_div_mod_converse(i, 8, r, c);
        assert(hash_bit(dhash_rec(s, 64), i) == dhash_bit(s, i));
    }
}

/// Flipping one sample across the mean toggles exactly that sample's bit:
/// if every other sample keeps its relationship to the (possibly changed)
/// mean, every other bit of the average hash is unchanged, and bit `j`
/// differs.
pub proof fn lemma_ahash_single_flip(s1: Seq<u8>, s2: Seq<u8>, j: int)
    requires
        s1.len() == 64,
        s2.len() == 64,
        0 <= j < 64,
        forall|i: int| 0 <= i < 64 && i != j ==> s1[i] == s2[i],
        forall|i: int| 0 <= i < 64 && i != j ==> ahash_bit(s1, i) == ahash_bit(s2, i),
        ahash_bit(s1, j) != ahash_bit(s2, j),
    ensures
        hash_bit(ahash_of(s1), j) != hash_bit(ahash_of(s2), j),
        forall|i: int|
            0 <= i < 64 && i != j ==> #[trigger] hash_bit(ahash_of(s1), i) == hash_bit(
                ahash_of(s2),
                i,
            ),
{
    lemma_ahash_rec_bits(s1, 64);
    lemma_ahash_rec_bits(s2, 64);
}

/// The sum of a constant buffer is the sample count times the value.
proof fn lemma_sum_constant(s: Seq<u8>, v: u8)
    requires
        forall|i: int| 0 <= i < s.len() ==> s[i] == v,
    ensures
        sum_of(s) == s.len() * v,
    decreases s.len(),
{
    if s.len() == 0 {
    } else {
        lemma_sum_constant(s.drop_last(), v);
        assert((s.len() - 1) * v + v == s.len() * v) by (nonlinear_arith);
    }
}

proof fn lemma_ahash_rec_all_clear(s: Seq<u8>, n: int)
    requires
        0 <= n <= 64,
        forall|i: int| 0 <= i < n ==> !ahash_bit(s, i),
    ensures
        ahash_rec(s, n) == 0,
    decreases n,
{
    if n > 0 {
        lemma_ahash_rec_all_clear(s, n - 1);
        assert(0u64 | 0u64 == 0u64) by (bit_vector);
    }
}

proof fn lemma_dhash_rec_all_clear(s: Seq<u8>, n: int)
    requires
        0 <= n <= 64,
        forall|i: int| 0 <= i < n ==> !dhash_bit(s, i),
    ensures
        dhash_rec(s, n) == 0,
    decreases n,
{
    if n > 0 {
        lemma_dhash_rec_all_clear(s, n - 1);
        assert(0u64 | 0u64 == 0u64) by (bit_vector);
    }
}

/// A uniform 8x8 buffer has average hash 0: no sample strictly exceeds the
/// mean when all samples are equal.
pub proof fn lemma_ahash_uniform_zero(s: Seq<u8>, v: u8)
    requires
        s.len() == 64,
        forall|i: int| 0 <= i < 64 ==> s[i] == v,
    ensures
        ahash_of(s) == 0,
{
    lemma_sum_constant(s, v);
    lemma_ahash_rec_all_clear(s, 64);
}

/// A uniform 9x8 buffer has difference hash 0: no strict inequality holds
/// between equal neighbours.
pub proof fn lemma_dhash_uniform_zero(s: Seq<u8>, v: u8)
    requires
        s.len() == 72,
        forall|i: int| 0 <= i < 72 ==> s[i] == v,
    ensures
        dhash_of(s) == 0,
{
    assert forall|i: int| 0 <= i < 64 implies !dhash_bit(s, i) by {
        assert(0 <= (i / 8) * 9 + (i % 8) + 1 < 72);
    }
    lemma_dhash_rec_all_clear(s, 64);
}

/// Hashing is deterministic: both fingerprints are pure functions of the
/// pixel bytes and dimensions, so byte-for-byte identical images hash
/// identically on every call.
pub proof fn lemma_hash_deterministic(
    d1: Seq<u8>,
    w1: int,
    h1: int,
    c1: int,
    d2: Seq<u8>,
    w2: int,
    h2: int,
    c2: int,
)
    requires
        d1 == d2,
        w1 == w2,
        h1 == h2,
        c1 == c2,
    ensures
        average_hash_of(d1, w1, h1, c1) == average_hash_of(d2, w2, h2, c2),
        difference_hash_of(d1, w1, h1, c1) == difference_hash_of(d2, w2, h2, c2),
{
}

} // verus!
