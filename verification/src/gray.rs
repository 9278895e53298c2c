use vstd::prelude::*;
use crate::cgimage::CGImage;

verus! {

/// Integer luma of an RGB triple: the ITU-R BT.601 weighting
/// `(299*r + 587*g + 114*b) / 1000`, rounded toward zero. The weights sum to
/// 1000, so the result always fits in a byte.
pub open spec fn luma(r: u8, g: u8, b: u8) -> int {
    (299 * (r as int) + 587 * (g as int) + 114 * (b as int)) / 1000
}

/// The intensity of pixel `i` of a buffer with `components` interleaved
/// channels. One channel is already an intensity; two channels are intensity
/// plus alpha (alpha ignored); three and four channels are RGB and RGBA
/// (alpha ignored), reduced by `luma`.
pub open spec fn gray_at(data: Seq<u8>, components: int, i: int) -> u8 {
    if components == 2 {
        data[2 * i]
    } else if components == 3 {
        luma(data[3 * i], data[3 * i + 1], data[3 * i + 2]) as u8
    } else if components == 4 {
        luma(data[4 * i], data[4 * i + 1], data[4 * i + 2]) as u8
    } else {
        data[i]
    }
}

/// The single-channel rendering of a pixel buffer: one intensity byte per pixel.
pub open spec fn gray_seq(data: Seq<u8>, components: int, count: int) -> Seq<u8> {
    Seq::new(count as nat, |i: int| gray_at(data, components, i))
}

/// Computes `luma` executably.
fn luma_value(r: u8, g: u8, b: u8) -> (v: u8)
    ensures
        v as int == luma(r, g, b),
{
    let weighted: u32 = 299 * (r as u32) + 587 * (g as u32) + 114 * (b as u32);
    (weighted / 1000) as u8
}

impl CGImage {
    /// Renders the image into a single-channel 8-bit canvas of the same
    /// dimensions: the grayscale normalization stage. Every pixel becomes its
    /// `gray_at` intensity; width and height are kept exactly.
    pub fn to_grayscale(&self) -> (g: CGImage)
        requires
            self.wf(),
        ensures
            g.is_grayscale(),
            g.spec_width() == self.spec_width(),
            g.spec_height() == self.spec_height(),
            g.spec_data() == gray_seq(
                self.spec_data(),
                self.spec_components(),
                self.spec_width() * self.spec_height(),
            ),
    {
        let w = self.width();
        let h = self.height();
        let c = self.components();
        let data = self.raw_data();
        let len = data.len();
        proof {
            assert(w * h * 1 <= w * h * c) by (nonlinear_arith)
                requires
                    w >= 1,
                    h >= 1,
                    c >= 1,
            ;
        }
        let count = w * h;
        let mut out: Vec<u8> = Vec::new();
        let mut i: usize = 0;
        while i < count
            invariant
                self.wf(),
                w == self.spec_width(),
                h == self.spec_height(),
                c == self.spec_components(),
                data@ == self.spec_data(),
                count == w * h,
                len == data@.len(),
                count * c == len,
                i <= count,
                out@.len() == i,
                forall|j: int| 0 <= j < i ==> out@[j] == gray_at(data@, c as int, j),
            decreases count - i,
        {
            let v: u8 = if c == 1 {
                proof {
                    assert(i < len) by (nonlinear_arith)
                        requires
                            i < count,
                            c == 1,
                            count * c == len,
                    ;
                }
                data[i]
            } else if c == 2 {
                proof {
                    assert(2 * i + 1 < len) by (nonlinear_arith)
                        requires
                            i < count,
                            c == 2,
                            count * c == len,
                    ;
                }
                data[2 * i]
            } else if c == 3 {
                proof {
                    assert(3 * i + 2 < len) by (nonlinear_arith)
                        requires
                            i < count,
                            c == 3,
                            count * c == len,
                    ;
                }
                luma_value(data[3 * i], data[3 * i + 1], data[3 * i + 2])
            } else {
                proof {
                    assert(4 * i + 3 < len) by (nonlinear_arith)
                        requires
                            i < count,
                            c == 4,
                            count * c == len,
                    ;
                }
                luma_value(data[4 * i], data[4 * i + 1], data[4 * i + 2])
            };
            out.push(v);
            i += 1;
        }
        proof {
            assert(out@ =~= gray_seq(self.spec_data(), self.spec_components(), w * h));
        }
        CGImage::from_parts(w, h, 1, out)
    }
}

} // verus!
