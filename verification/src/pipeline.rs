use vstd::prelude::*;
use crate::errs::Error;
use crate::gray::gray_seq;
use crate::hash::{ahash_of, dhash_of};
use crate::cgimage::CGImage;
use crate::resample::resample_seq;

verus! {

/// The grayscale rendering of an image, resampled to `dst_w x dst_h`: the
/// canonical thumbnail both fingerprints are extracted from.
pub open spec fn thumbnail_seq(
    data: Seq<u8>,
    width: int,
    height: int,
    components: int,
    dst_w: int,
    dst_h: int,
) -> Seq<u8> {
    resample_seq(gray_seq(data, components, width * height), width, height, dst_w, dst_h)
}

/// The average hash of a whole image: grayscale, resample to 8x8, compare
/// each sample against the mean.
pub open spec fn average_hash_of(data: Seq<u8>, width: int, height: int, components: int) -> u64 {
    ahash_of(thumbnail_seq(data, width, height, components, 8, 8))
}

/// The difference hash of a whole image: grayscale, resample to 9x8, compare
/// each sample against its right neighbour.
pub open spec fn difference_hash_of(
    data: Seq<u8>,
    width: int,
    height: int,
    components: int,
) -> u64 {
    dhash_of(thumbnail_seq(data, width, height, components, 9, 8))
}

impl CGImage {
    /// The full average-hash pipeline: render the image grayscale, resample
    /// it to 8x8, and extract the 64 mean comparisons. Succeeds on every
    /// well-formed image, with a fresh conversion and resample per call.
    pub fn ahash(&self) -> (r: Result<u64, Error>)
        requires
            self.wf(),
        ensures
            r == Ok::<u64, Error>(
                average_hash_of(
                    self.spec_data(),
                    self.spec_width(),
                    self.spec_height(),
                    self.spec_components(),
                ),
            ),
    {
        let gray = self.to_grayscale();
        let thumb = match gray.resize(8, 8) {
            Ok(t) => t,
            Err(e) => {
                return Err(e);
            },
        };
        thumb.ahash_bits()
    }

    /// The full difference-hash pipeline: render the image grayscale,
    /// resample it to 9x8, and extract the 64 horizontal comparisons.
    /// Succeeds on every well-formed image, with a fresh conversion and
    /// resample per call.
    pub fn dhash(&self) -> (r: Result<u64, Error>)
        requires
            self.wf(),
        ensures
            r == Ok::<u64, Error>(
                difference_hash_of(
                    self.spec_data(),
                    self.spec_width(),
                    self.spec_height(),
                    self.spec_components(),
                ),
            ),
    {
        let gray = self.to_grayscale();
        let thumb = match gray.resize(9, 8) {
            Ok(t) => t,
            Err(e) => {
                return Err(e);
            },
        };
        thumb.dhash_bits()
    }
}

} // verus!
