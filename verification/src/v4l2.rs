//! The pixel format announced to a v4l2loopback device before frames are
//! written to it.
use vstd::prelude::*;

verus! {

/// Buffer type of a video output device.
pub const V4L2_BUF_TYPE_VIDEO_OUTPUT: u32 = 2;

/// Progressive frames, no interlacing.
pub const V4L2_FIELD_NONE: u32 = 0;

/// The pixel format code announced for the frames, which are written as three
/// bytes a pixel. In memory order its bytes spell "BGR3".
pub const V4L2_PIX_FMT_RGB24: u32 = 0x33524742;

/// The fields of the pixel format that the output sets; all others are zero.
pub struct PixFormat {
    pub width: u32,
    pub height: u32,
    pub pixelformat: u32,
    pub field: u32,
    pub bytesperline: u32,
    pub sizeimage: u32,
}

/// The format for `width` x `height` RGB frames: packed rows of three bytes a
/// pixel, progressive.
pub fn output_format(width: u32, height: u32) -> (f: PixFormat)
    requires
        width * 3 <= u32::MAX,
        width * height * 3 <= u32::MAX,
    ensures
        f.width == width,
        f.height == height,
        f.pixelformat == V4L2_PIX_FMT_RGB24,
        f.field == V4L2_FIELD_NONE,
        f.bytesperline == width * 3,
        f.sizeimage == width * height * 3,
{
    proof {
        assert(width * height <= width * height * 3) by (nonlinear_arith);
    }
    PixFormat {
        width,
        height,
        pixelformat: V4L2_PIX_FMT_RGB24,
        field: V4L2_FIELD_NONE,
        bytesperline: width * 3,
        sizeimage: width * height * 3,
    }
}

} // verus!
