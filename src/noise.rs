use vstd::prelude::*;

use crate::buffer::{mode_max_spec, BitDepthMode, CalibError, PixelBuffer};
use crate::scale::{is_rescaled_of, normalize};

verus! {

/// A blur kernel size the chrominance filter accepts: odd and positive.
pub open spec fn valid_kernel(k: int) -> bool {
    k > 0 && k % 2 == 1
}

/// Checks the kernel size and brings the buffer to 8-bit mode for the
/// colour-space filter, rescaling a wider buffer from its maximum value.
/// An 8-bit buffer passes through unchanged.
pub fn prepare_color_noise_reduction(buf: PixelBuffer, kernel_size: i32) -> (r: Result<PixelBuffer, CalibError>)
    requires
        buf.wf(),
    ensures
        r is Ok <==> valid_kernel(kernel_size as int),
        r is Err ==> r->Err_0 == CalibError::InvalidParameter,
        r is Ok ==> {
            let o = r->Ok_0;
            &&& o.wf()
            &&& o.width == buf.width
            &&& o.height == buf.height
            &&& o.instrument == buf.instrument
            &&& o.mode == BitDepthMode::U8
        },
        r is Ok && buf.mode != BitDepthMode::U8 ==> r->Ok_0.within_mode() && r->Ok_0.max_value == 255,
        r is Ok && buf.mode == BitDepthMode::U8 ==> r->Ok_0 == buf,
        r is Ok && buf.mode != BitDepthMode::U8 ==> {
            let o = r->Ok_0;
            &&& is_rescaled_of(o.red@, buf.red@, buf.max_value as int, 255)
            &&& is_rescaled_of(o.green@, buf.green@, buf.max_value as int, 255)
            &&& is_rescaled_of(o.blue@, buf.blue@, buf.max_value as int, 255)
        },
{
    if kernel_size <= 0 || kernel_size % 2 != 1 {
        return Err(CalibError::InvalidParameter);
    }
    if buf.mode == BitDepthMode::U8 {
        return Ok(buf);
    }
    let m = buf.max_value;
    normalize(buf, m, BitDepthMode::U8)
}

/// Takes the 8-bit result of the colour-space filter back to the mode the
/// buffer had before `prepare_color_noise_reduction`, rescaling from 255.
/// Fails with `DimensionMismatch` if the filtered image does not have the
/// given dimensions.
pub fn finish_color_noise_reduction(filtered: PixelBuffer, width: usize, height: usize, orig_mode: BitDepthMode) -> (r: Result<PixelBuffer, CalibError>)
    requires
        filtered.wf(),
    ensures
        r is Ok <==> filtered.width == width && filtered.height == height,
        r is Err ==> r->Err_0 == CalibError::DimensionMismatch,
        r is Ok ==> {
            let o = r->Ok_0;
            &&& o.wf()
            &&& o.width == width
            &&& o.height == height
            &&& o.instrument == filtered.instrument
            &&& o.mode == orig_mode
            &&& o.max_value as int == mode_max_spec(orig_mode)
            &&& o.within_mode()
            &&& is_rescaled_of(o.red@, filtered.red@, 255, mode_max_spec(orig_mode) as int)
            &&& is_rescaled_of(o.green@, filtered.green@, 255, mode_max_spec(orig_mode) as int)
            &&& is_rescaled_of(o.blue@, filtered.blue@, 255, mode_max_spec(orig_mode) as int)
        },
{
    if filtered.width != width || filtered.height != height {
        return Err(CalibError::DimensionMismatch);
    }
    normalize(filtered, 255, orig_mode)
}

} // verus!
