use vstd::prelude::*;

verus! {

/// The ways a pipeline stage can refuse its input.
///
/// `UnsupportedColorModel` marks a pixel layout the stage does not handle
/// (resampling is defined for single-component buffers only). `CanvasCreationFailed`
/// marks a render target that cannot be allocated (a zero-sized or overflowing
/// canvas). `BufferSizeMismatch` marks an integrity violation: a buffer whose
/// byte count does not match its stated dimensions; no fingerprint is ever
/// computed over such a buffer.
#[derive(Clone, Copy, Debug, PartialEq, Eq, Structural)]
pub enum Error {
    UnsupportedColorModel,
    CanvasCreationFailed,
    BufferSizeMismatch,
}

} // verus!
