use vstd::prelude::*;
use crate::errs::Error;

verus! {

/// A decoded raster image: row-major pixel bytes with one to four interleaved
/// 8-bit components per pixel. Every buffer a caller can obtain satisfies
/// `wf()`: the byte count equals `width * height * components` exactly.
#[derive(Debug)]
pub struct CGImage {
    width: usize,
    height: usize,
    components: usize,
    data: Vec<u8>,
}

impl CGImage {
    pub closed spec fn spec_width(&self) -> int {
        self.width as int
    }

    pub closed spec fn spec_height(&self) -> int {
        self.height as int
    }

    pub closed spec fn spec_components(&self) -> int {
        self.components as int
    }

    /// The pixel bytes, row by row, components interleaved.
    pub closed spec fn spec_data(&self) -> Seq<u8> {
        self.data@
    }

    /// Structural invariant: at least one pixel, one to four components,
    /// and exactly one byte per component of every pixel.
    pub open spec fn wf(&self) -> bool {
        &&& self.spec_width() >= 1
        &&& self.spec_height() >= 1
        &&& 1 <= self.spec_components() <= 4
        &&& self.spec_data().len() == self.spec_width() * self.spec_height() * self.spec_components()
    }

    /// A buffer holding a single 8-bit intensity channel.
    pub open spec fn is_grayscale(&self) -> bool {
        &&& self.wf()
        &&& self.spec_components() == 1
    }

    /// Builds a buffer after validating that the byte count matches the stated
    /// dimensions. Rejects component counts outside one to four, and any
    /// dimension/byte-count combination that does not describe a whole image.
    pub fn new(width: usize, height: usize, components: usize, data: Vec<u8>) -> (r: Result<
        CGImage,
        Error,
    >)
        ensures
            !(1 <= components <= 4) ==> r == Err::<CGImage, Error>(
                Error::UnsupportedColorModel,
            ),
            1 <= components <= 4 && !(width >= 1 && height >= 1 && data@.len() == width * height
                * components) ==> r == Err::<CGImage, Error>(Error::BufferSizeMismatch),
            1 <= components <= 4 && width >= 1 && height >= 1 && data@.len() == width * height
                * components ==> (r matches Ok(b) && b.wf() && b.spec_width() == width
                && b.spec_height() == height && b.spec_components() == components && b.spec_data()
                == data@),
    {
        if components < 1 || components > 4 {
            return Err(Error::UnsupportedColorModel);
        }
        if width < 1 || height < 1 {
            return Err(Error::BufferSizeMismatch);
        }
        let byte_count = data.len();
        let pixels = match width.checked_mul(height) {
            Some(p) => p,
            None => {
                proof {
                    lemma_dims_exceed_len(width as int, height as int, components as int, byte_count as int);
                }
                return Err(Error::BufferSizeMismatch);
            },
        };
        let total = match pixels.checked_mul(components) {
            Some(t) => t,
            None => {
                return Err(Error::BufferSizeMismatch);
            },
        };
        if data.len() != total {
            return Err(Error::BufferSizeMismatch);
        }
        Ok(CGImage { width, height, components, data })
    }

    /// Assembles a buffer whose parts are already known to describe a whole image.
    pub(crate) fn from_parts(width: usize, height: usize, components: usize, data: Vec<u8>) -> (r:
        CGImage)
        requires
            width >= 1,
            height >= 1,
            1 <= components <= 4,
            data@.len() == width * height * components,
        ensures
            r.wf(),
            r.spec_width() == width,
            r.spec_height() == height,
            r.spec_components() == components,
            r.spec_data() == data@,
    {
        CGImage { width, height, components, data }
    }

    pub fn width(&self) -> (r: usize)
        ensures
            r == self.spec_width(),
    {
        self.width
    }

    pub fn height(&self) -> (r: usize)
        ensures
            r == self.spec_height(),
    {
        self.height
    }

    pub fn components(&self) -> (r: usize)
        ensures
            r == self.spec_components(),
    {
        self.components
    }

    /// The backing bytes of the buffer.
    pub fn raw_data(&self) -> (r: &Vec<u8>)
        ensures
            r@ == self.spec_data(),
    {
        &self.data
    }
}

/// When the pixel count alone exceeds the byte count a `Vec` can hold, no byte
/// count can match the stated dimensions.
proof fn lemma_dims_exceed_len(width: int, height: int, components: int, len: int)
    requires
        width >= 1,
        height >= 1,
        components >= 1,
        len <= usize::MAX,
        width * height > usize::MAX,
    ensures
        len != width * height * components,
{
    assert(width * height * components >= width * height * 1) by (nonlinear_arith)
        requires
            width >= 1,
            height >= 1,
            components >= 1,
    ;
}

} // verus!
