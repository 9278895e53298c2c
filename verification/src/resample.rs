use vstd::prelude::*;
use vstd::arithmetic::div_mod::{lemma_fundamental_div_mod_converse, lemma_multiply_divide_lt};
use vstd::arithmetic::mul::{lemma_mul_inequality, lemma_mul_strict_inequality};
use crate::errs::Error;
use crate::cgimage::CGImage;

verus! {

/// The source coordinate that nearest-neighbour sampling picks for output
/// coordinate `dst` on an axis of `src_len` source pixels and `dst_len`
/// output pixels: `dst * src_len / dst_len`, rounded down.
pub open spec fn src_coord(dst: int, src_len: int, dst_len: int) -> int {
    dst * src_len / dst_len
}

/// The resampled single-channel buffer, row-major over the target grid:
/// output pixel (`k / dst_w`, `k % dst_w`) takes the source pixel at the
/// nearest-neighbour coordinates.
pub open spec fn resample_seq(
    data: Seq<u8>,
    src_w: int,
    src_h: int,
    dst_w: int,
    dst_h: int,
) -> Seq<u8> {
    Seq::new(
        (dst_w * dst_h) as nat,
        |k: int|
            data[src_coord(k / dst_w, src_h, dst_h) * src_w + src_coord(k % dst_w, src_w, dst_w)],
    )
}

/// Nearest-neighbour sampling stays inside the source axis.
proof fn lemma_src_coord_bound(dst: int, src_len: int, dst_len: int)
    requires
        0 <= dst < dst_len,
        src_len >= 1,
    ensures
        0 <= src_coord(dst, src_len, dst_len) < src_len,
{
    lemma_mul_strict_inequality(dst, dst_len, src_len);
    lemma_multiply_divide_lt(dst * src_len, dst_len, src_len);
    assert(dst * src_len >= 0) by (nonlinear_arith)
        requires
            dst >= 0,
            src_len >= 0,
    ;
}

impl CGImage {
    /// Renders a single-channel image into a canvas of exactly
    /// `target_width x target_height` pixels, one 8-bit component, by
    /// nearest-neighbour sampling (output pixel (r, c) takes source pixel
    /// (r * src_h / dst_h, c * src_w / dst_w)).
    ///
    /// Only single-component images are supported: anything else is refused
    /// with `UnsupportedColorModel` rather than given made-up blending
    /// semantics. A canvas with a zero side, or more pixels than a byte
    /// buffer can hold, cannot be allocated: `CanvasCreationFailed`.
    /// A returned buffer always holds exactly `target_width * target_height`
    /// bytes.
    pub fn resize(&self, target_width: usize, target_height: usize) -> (r: Result<
        CGImage,
        Error,
    >)
        requires
            self.wf(),
        ensures
            self.spec_components() != 1 ==> r == Err::<CGImage, Error>(
                Error::UnsupportedColorModel,
            ),
            self.spec_components() == 1 && !(target_width >= 1 && target_height >= 1
                && target_width * target_height <= usize::MAX) ==> r == Err::<CGImage, Error>(
                Error::CanvasCreationFailed,
            ),
            self.spec_components() == 1 && target_width >= 1 && target_height >= 1 && target_width
                * target_height <= usize::MAX ==> (r matches Ok(g) && g.is_grayscale()
                && g.spec_width() == target_width && g.spec_height() == target_height
                && g.spec_data() == resample_seq(
                self.spec_data(),
                self.spec_width(),
                self.spec_height(),
                target_width as int,
                target_height as int,
            )),
    {
        if self.components() != 1 {
            return Err(Error::UnsupportedColorModel);
        }
        if target_width < 1 || target_height < 1 {
            return Err(Error::CanvasCreationFailed);
        }
        let total = match target_width.checked_mul(target_height) {
            Some(t) => t,
            None => {
                return Err(Error::CanvasCreationFailed);
            },
        };
        let sw = self.width();
        let sh = self.height();
        let src = self.raw_data();
        let len = src.len();
        let ghost target = resample_seq(
            self.spec_data(),
            sw as int,
            sh as int,
            target_width as int,
            target_height as int,
        );
        let mut out: Vec<u8> = Vec::new();
        let mut r: usize = 0;
        while r < target_height
            invariant
                self.wf(),
                sw == self.spec_width(),
                sh == self.spec_height(),
                self.spec_components() == 1,
                src@ == self.spec_data(),
                len == src@.len(),
                len == sw * sh,
                total == target_width * target_height,
                target_width >= 1,
                target_height >= 1,
                r <= target_height,
                target == resample_seq(
                    self.spec_data(),
                    sw as int,
                    sh as int,
                    target_width as int,
                    target_height as int,
                ),
                out@.len() == r * target_width,
                forall|k: int| 0 <= k < out@.len() ==> out@[k] == target[k],
            decreases target_height - r,
        {
            proof {
                lemma_src_coord_bound(r as int, sh as int, target_height as int);
                assert((r as int) * (sh as int) <= u64::MAX * u64::MAX) by (nonlinear_arith)
                    requires
                        0 <= r <= u64::MAX,
                        0 <= sh <= u64::MAX,
                ;
            }
            let src_row = (((r as u128) * (sh as u128)) / (target_height as u128)) as usize;
            let mut c: usize = 0;
            while c < target_width
                invariant
                    self.wf(),
                    sw == self.spec_width(),
                    sh == self.spec_height(),
                    self.spec_components() == 1,
                    src@ == self.spec_data(),
                    len == src@.len(),
                    len == sw * sh,
                    total == target_width * target_height,
                    target_width >= 1,
                    target_height >= 1,
                    r < target_height,
                    c <= target_width,
                    src_row == src_coord(r as int, sh as int, target_height as int),
                    0 <= src_row < sh,
                    target == resample_seq(
                        self.spec_data(),
                        sw as int,
                        sh as int,
                        target_width as int,
                        target_height as int,
                    ),
                    out@.len() == r * target_width + c,
                    forall|k: int| 0 <= k < out@.len() ==> out@[k] == target[k],
                decreases target_width - c,
            {
                proof {
                    lemma_src_coord_bound(c as int, sw as int, target_width as int);
                    assert((c as int) * (sw as int) <= u64::MAX * u64::MAX) by (nonlinear_arith)
                        requires
                            0 <= c <= u64::MAX,
                            0 <= sw <= u64::MAX,
                    ;
                }
                let src_col = (((c as u128) * (sw as u128)) / (target_width as u128)) as usize;
                proof {
                    assert(src_row * sw + src_col < len) by (nonlinear_arith)
                        requires
                            0 <= src_row < sh,
                            0 <= src_col < sw,
                            len == sw * sh,
                    ;
                }
                let idx = src_row * sw + src_col;
                out.push(src[idx]);
                proof {
                    let k = r * target_width + c;
                    assert(k < target_width * target_height) by (nonlinear_arith)
                        requires
                            0 <= c < target_width,
                            0 <= r < target_height,
                            k == r * target_width + c,
                    ;
                    lemma_fundamental_div_mod_converse(
                        k as int,
                        target_width as int,
                        r as int,
                        c as int,
                    );
                    assert(src_col == src_coord(c as int, sw as int, target_width as int));
                    assert(target[k as int] == src@[src_row as int * sw + src_col]);
                    assert(out@[k as int] == target[k as int]);
                    assert(r * target_width + (c + 1) == k + 1) by (nonlinear_arith)
                        requires
                            k == r * target_width + c,
                    ;
                }
                c += 1;
            }
            proof {
                assert((r + 1) * target_width == r * target_width + target_width)
                    by (nonlinear_arith);
                lemma_mul_inequality(r as int + 1, target_height as int, target_width as int);
            }
            r += 1;
        }
        proof {
            assert(out@.len() == target_height * target_width);
            assert(target_height * target_width == target_width * target_height)
                by (nonlinear_arith);
            assert(out@ =~= target);
        }
        Ok(CGImage::from_parts(target_width, target_height, 1, out))
    }
}

} // verus!
