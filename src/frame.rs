use vstd::prelude::*;

use crate::error::CaptureError;

verus! {

/// `wl_shm` format code of 32-bit A:R:G:B, stored little endian (B, G, R, A in memory).
pub const FORMAT_ARGB8888: u32 = 0;

/// `wl_shm` format code of 32-bit x:R:G:B, stored little endian (B, G, R, x in memory).
pub const FORMAT_XRGB8888: u32 = 1;

/// `wl_shm` format code of 32-bit A:B:G:R, stored little endian (R, G, B, A in memory).
pub const FORMAT_ABGR8888: u32 = 0x34324241;

/// `wl_shm` format code of 32-bit x:B:G:R, stored little endian (R, G, B, x in memory).
pub const FORMAT_XBGR8888: u32 = 0x34324258;

/// A compositor-native pixel encoding.
#[derive(Clone, Copy, Debug, PartialEq, Eq, Structural)]
pub enum PixelFormat {
    Argb8888,
    Xrgb8888,
    Abgr8888,
    Xbgr8888,
    /// Any other `wl_shm` format code.
    Unsupported(u32),
}

impl PixelFormat {
    pub open spec fn spec_from_code(code: u32) -> PixelFormat {
        if code == FORMAT_ARGB8888 {
            PixelFormat::Argb8888
        } else if code == FORMAT_XRGB8888 {
            PixelFormat::Xrgb8888
        } else if code == FORMAT_ABGR8888 {
            PixelFormat::Abgr8888
        } else if code == FORMAT_XBGR8888 {
            PixelFormat::Xbgr8888
        } else {
            PixelFormat::Unsupported(code)
        }
    }

    pub open spec fn spec_code(self) -> u32 {
        match self {
            PixelFormat::Argb8888 => FORMAT_ARGB8888,
            PixelFormat::Xrgb8888 => FORMAT_XRGB8888,
            PixelFormat::Abgr8888 => FORMAT_ABGR8888,
            PixelFormat::Xbgr8888 => FORMAT_XBGR8888,
            PixelFormat::Unsupported(c) => c,
        }
    }

    /// The format that a `wl_shm` format code names.
    pub fn from_code(code: u32) -> (r: PixelFormat)
        ensures
            r == Self::spec_from_code(code),
            r.spec_code() == code,
    {
        if code == FORMAT_ARGB8888 {
            PixelFormat::Argb8888
        } else if code == FORMAT_XRGB8888 {
            PixelFormat::Xrgb8888
        } else if code == FORMAT_ABGR8888 {
            PixelFormat::Abgr8888
        } else if code == FORMAT_XBGR8888 {
            PixelFormat::Xbgr8888
        } else {
            PixelFormat::Unsupported(code)
        }
    }

    /// The `wl_shm` format code of this format.
    pub fn code(&self) -> (r: u32)
        ensures
            r == self.spec_code(),
    {
        match self {
            PixelFormat::Argb8888 => FORMAT_ARGB8888,
            PixelFormat::Xrgb8888 => FORMAT_XRGB8888,
            PixelFormat::Abgr8888 => FORMAT_ABGR8888,
            PixelFormat::Xbgr8888 => FORMAT_XBGR8888,
            PixelFormat::Unsupported(c) => *c,
        }
    }

    pub open spec fn is_supported(self) -> bool {
        !(self is Unsupported)
    }

    /// Whether the format stores red in the lowest byte of a pixel (else blue).
    pub open spec fn red_first(self) -> bool {
        self is Abgr8888 || self is Xbgr8888
    }

    /// Whether the fourth byte of a pixel carries a meaningful alpha value.
    pub open spec fn has_alpha(self) -> bool {
        self is Argb8888 || self is Abgr8888
    }

    /// Whether the normalizer can read this format.
    pub fn supported(&self) -> (r: bool)
        ensures
            r == self.is_supported(),
    {
        !matches!(self, PixelFormat::Unsupported(_))
    }
}

/// The geometry and encoding of a captured frame, as the compositor describes it.
#[derive(Clone, Copy, Debug, PartialEq, Eq, Structural)]
pub struct ImageDims {
    pub width: u32,
    pub height: u32,
    /// Bytes per row, at least four per pixel, possibly with padding.
    pub stride: u32,
    pub format: PixelFormat,
}

impl ImageDims {
    /// Every row holds its pixels.
    pub open spec fn wf(&self) -> bool {
        self.stride as int >= 4 * self.width as int
    }

    /// The number of bytes of a buffer holding the frame.
    pub open spec fn spec_total_size(&self) -> int {
        self.stride as int * self.height as int
    }

    /// The number of bytes of a buffer holding the frame: stride times height.
    pub fn total_size(&self) -> (r: u64)
        ensures
            r as int == self.spec_total_size(),
    {
        proof {
            let s = self.stride as int;
            let h = self.height as int;
            assert(0 <= s * h <= 0xffff_ffff * 0xffff_ffff) by (nonlinear_arith)
                requires
                    0 <= s <= 0xffff_ffff,
                    0 <= h <= 0xffff_ffff,
            ;
        }
        (self.stride as u64) * (self.height as u64)
    }
}

impl Default for ImageDims {
    fn default() -> (r: ImageDims)
        ensures
            r == (ImageDims { width: 0, height: 0, stride: 0, format: PixelFormat::Xbgr8888 }),
    {
        ImageDims { width: 0, height: 0, stride: 0, format: PixelFormat::Xbgr8888 }
    }
}

/// The requests that lay a shared-memory buffer over a frame: a pool of `pool_size`
/// bytes, and one buffer view over it at the given offset, geometry and format code.
#[derive(Clone, Copy, Debug, PartialEq, Eq, Structural)]
pub struct BufferPlan {
    pub pool_size: i32,
    pub offset: i32,
    pub width: i32,
    pub height: i32,
    pub stride: i32,
    pub format: u32,
}

/// The frame's buffer can be sized: neither stride nor height is zero, and the byte
/// count fits the pool's signed 32-bit size.
pub open spec fn can_allocate(dims: ImageDims) -> bool {
    &&& dims.height > 0
    &&& dims.stride > 0
    &&& dims.spec_total_size() <= i32::MAX
}

/// The plan that a valid frame description yields.
pub open spec fn spec_plan(dims: ImageDims) -> BufferPlan {
    BufferPlan {
        pool_size: dims.spec_total_size() as i32,
        offset: 0,
        width: dims.width as i32,
        height: dims.height as i32,
        stride: dims.stride as i32,
        format: dims.format.spec_code(),
    }
}

/// Sizes the shared-memory buffer for a frame: exactly stride times height bytes, one
/// view at offset zero. A zero stride or height, or a size past the pool's limit, is an
/// allocation failure; a stride too short for its row is a protocol failure.
pub fn plan_buffer(dims: &ImageDims) -> (r: Result<BufferPlan, CaptureError>)
    ensures
        r is Ok <==> can_allocate(*dims) && dims.wf(),
        !can_allocate(*dims) ==> r == Err::<BufferPlan, CaptureError>(
            CaptureError::AllocationFailure,
        ),
        can_allocate(*dims) && !dims.wf() ==> r == Err::<BufferPlan, CaptureError>(
            CaptureError::ProtocolFailure,
        ),
        r matches Ok(p) ==> p == spec_plan(*dims) && p.pool_size as int == dims.stride as int
            * dims.height as int,
{
    if dims.height == 0 || dims.stride == 0 {
        return Err(CaptureError::AllocationFailure);
    }
    let total: u64 = dims.total_size();
    if total > 0x7fff_ffffu64 {
        return Err(CaptureError::AllocationFailure);
    }
    if (dims.stride as u64) < 4 * (dims.width as u64) {
        return Err(CaptureError::ProtocolFailure);
    }
    proof {
        let s = dims.stride as int;
        let h = dims.height as int;
        assert(s <= s * h) by (nonlinear_arith)
            requires
                h >= 1,
                s >= 0,
        ;
        assert(h <= s * h) by (nonlinear_arith)
            requires
                s >= 1,
                h >= 0,
        ;
    }
    Ok(
        BufferPlan {
            pool_size: total as i32,
            offset: 0,
            width: dims.width as i32,
            height: dims.height as i32,
            stride: dims.stride as i32,
            format: dims.format.code(),
        },
    )
}

} // verus!
