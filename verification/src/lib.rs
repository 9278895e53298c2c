//! Perceptual image fingerprints for near-duplicate detection.
//!
//! An image is normalized to a single 8-bit intensity channel, resampled to a
//! tiny fixed-size thumbnail, and reduced to a 64-bit fingerprint by one of
//! two deterministic bit-extraction rules: the average hash (each sample
//! against the mean of all samples) and the difference hash (each sample
//! against its right neighbour). Images with similar content get fingerprints
//! at small Hamming distance, so comparing hashes replaces comparing pixels.
//!
//! Every stage carries a contract that pins its result down exactly, and the
//! bit-level semantics of both fingerprints are stated and proved as public
//! lemmas.

use vstd::prelude::*;

mod cgimage;
mod errs;
mod gray;
mod hash;
mod laws;
mod pipeline;
mod resample;

pub use cgimage::CGImage;
pub use errs::Error;
pub use gray::{gray_at, gray_seq, luma};
pub use hash::{ahash_bit, ahash_of, ahash_rec, dhash_bit, dhash_of, dhash_rec, hash_bit, sum_of};
pub use hash::{lemma_ahash_rec_bits, lemma_dhash_rec_bits};
pub use laws::{
    lemma_ahash_bit_semantics, lemma_ahash_single_flip, lemma_ahash_uniform_zero,
    lemma_dhash_bit_semantics, lemma_dhash_uniform_zero, lemma_hash_deterministic,
};
pub use pipeline::{average_hash_of, difference_hash_of, thumbnail_seq};
pub use resample::{resample_seq, src_coord};
