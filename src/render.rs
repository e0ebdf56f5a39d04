use vstd::prelude::*;

use crate::argparser::RegionSelect;
use crate::error::CaptureError;
use crate::frame::{ImageDims, PixelFormat};

verus! {

/// Offset in the source buffer of the first byte of the pixel at row `y`, column `x`.
pub open spec fn source_offset(dims: ImageDims, y: int, x: int) -> int {
    y * dims.stride + 4 * x
}

/// Index in the canonical RGBA output of channel `c` of the pixel at row `y`, column `x`.
pub open spec fn output_index(dims: ImageDims, y: int, x: int, c: int) -> int {
    4 * (y * dims.width + x) + c
}

/// Channel `c` (red, green, blue, alpha for 0 to 3) of the canonical pixel at row `y`,
/// column `x` of a frame stored in `bytes`. Formats without alpha read as opaque.
pub open spec fn rgba_channel(bytes: Seq<u8>, dims: ImageDims, y: int, x: int, c: int) -> u8 {
    let base = source_offset(dims, y, x);
    if c == 3 {
        if dims.format.has_alpha() {
            bytes[base + 3]
        } else {
            255
        }
    } else if dims.format.red_first() {
        bytes[base + c]
    } else {
        bytes[base + 2 - c]
    }
}

/// `out` is the frame in `bytes` as row-major RGBA, one quadruplet per pixel, without
/// the padding that ends each row of the source.
pub open spec fn is_normalized(out: Seq<u8>, bytes: Seq<u8>, dims: ImageDims) -> bool {
    &&& out.len() == 4 * (dims.width as int * dims.height as int)
    &&& forall|y: int, x: int, c: int|
        0 <= y < dims.height && 0 <= x < dims.width && 0 <= c < 4 ==> out[output_index(
            dims,
            y,
            x,
            c,
        )] == #[trigger] rgba_channel(bytes, dims, y, x, c)
}

proof fn lemma_earlier_pixel(w: int, y: int, x: int, y2: int, x2: int)
    requires
        0 <= x < w,
        0 <= x2 < w,
        0 <= y2,
        0 <= y,
        y2 < y || (y2 == y && x2 < x),
    ensures
        y2 * w + x2 < y * w + x,
        y2 * w + x2 >= 0,
{
    if y2 < y {
        assert(y2 * w + x2 < y * w) by (nonlinear_arith)
            requires
                0 <= x2 < w,
                0 <= y2 < y,
        ;
    }
    assert(y2 * w >= 0) by (nonlinear_arith)
        requires
            0 <= y2,
            0 <= w,
    ;
}

proof fn lemma_row_in_buffer(stride: int, w: int, h: int, y: int, x: int)
    requires
        stride >= 4 * w,
        0 <= y < h,
        0 <= x < w,
    ensures
        0 <= y * stride,
        y * stride + 4 * x + 4 <= h * stride,
{
    assert(y * stride + stride <= h * stride) by (nonlinear_arith)
        requires
            0 <= y < h,
            stride >= 0,
    ;
    assert(0 <= y * stride) by (nonlinear_arith)
        requires
            0 <= y,
            stride >= 0,
    ;
}

/// Converts a captured frame into row-major RGBA8, honouring the row stride so that
/// padding is dropped. An encoding other than the four 32-bit packed ones is refused.
pub fn get_rgba(dims: &ImageDims, buf: &[u8]) -> (r: Result<Vec<u8>, CaptureError>)
    requires
        dims.wf(),
        buf@.len() >= dims.spec_total_size(),
    ensures
        r is Ok <==> dims.format.is_supported(),
        r is Err ==> r == Err::<Vec<u8>, CaptureError>(CaptureError::UnsupportedPixelFormat),
        r matches Ok(out) ==> is_normalized(out@, buf@, *dims),
{
    if !dims.format.supported() {
        return Err(CaptureError::UnsupportedPixelFormat);
    }
    let ghost w = dims.width as int;
    let ghost h = dims.height as int;
    let ghost s = dims.stride as int;
    let n: usize = buf.len();
    let mut out: Vec<u8> = Vec::new();
    let mut y: u32 = 0;
    while y < dims.height
        invariant
            dims.wf(),
            dims.format.is_supported(),
            buf@.len() >= dims.spec_total_size(),
            n == buf@.len(),
            w == dims.width,
            h == dims.height,
            s == dims.stride,
            0 <= y <= h,
            out@.len() == 4 * (y * w),
            forall|y2: int, x2: int, c: int|
                0 <= y2 < y && 0 <= x2 < w && 0 <= c < 4 ==> out@[output_index(
                    *dims,
                    y2,
                    x2,
                    c,
                )] == #[trigger] rgba_channel(buf@, *dims, y2, x2, c),
        decreases h - y,
    {
        proof {
            if w > 0 {
                lemma_row_in_buffer(s, w, h, y as int, 0);
            } else {
                assert(0 <= y * s <= h * s) by (nonlinear_arith)
                    requires
                        0 <= y < h,
                        s >= 0,
                ;
            }
        }
        let row: usize = (y as usize) * (dims.stride as usize);
        let mut x: u32 = 0;
        while x < dims.width
            invariant
                dims.wf(),
                dims.format.is_supported(),
                buf@.len() >= dims.spec_total_size(),
                n == buf@.len(),
                w == dims.width,
                h == dims.height,
                s == dims.stride,
                0 <= y < h,
                0 <= x <= w,
                row == y * s,
                out@.len() == 4 * (y * w + x),
                forall|y2: int, x2: int, c: int|
                    0 <= y2 <= y && 0 <= x2 < w && 0 <= c < 4 && (y2 < y || x2 < x)
                        ==> out@[output_index(*dims, y2, x2, c)] == #[trigger] rgba_channel(
                        buf@,
                        *dims,
                        y2,
                        x2,
                        c,
                    ),
            decreases w - x,
        {
            proof {
                lemma_row_in_buffer(s, w, h, y as int, x as int);
            }
            let base: usize = row + 4 * (x as usize);
            let (red, green, blue, alpha) = match dims.format {
                PixelFormat::Argb8888 => (buf[base + 2], buf[base + 1], buf[base], buf[base + 3]),
                PixelFormat::Xrgb8888 => (buf[base + 2], buf[base + 1], buf[base], 255u8),
                PixelFormat::Abgr8888 => (buf[base], buf[base + 1], buf[base + 2], buf[base + 3]),
                PixelFormat::Xbgr8888 => (buf[base], buf[base + 1], buf[base + 2], 255u8),
                PixelFormat::Unsupported(_) => (0u8, 0u8, 0u8, 0u8),
            };
            let ghost before = out@;
            out.push(red);
            out.push(green);
            out.push(blue);
            out.push(alpha);
            proof {
                let yi = y as int;
                let xi = x as int;
                assert(out@ == before + seq![red, green, blue, alpha]);
                assert(rgba_channel(buf@, *dims, yi, xi, 0) == red);
                assert(rgba_channel(buf@, *dims, yi, xi, 1) == green);
                assert(rgba_channel(buf@, *dims, yi, xi, 2) == blue);
                assert(rgba_channel(buf@, *dims, yi, xi, 3) == alpha);
                assert(4 * (yi * w + xi + 1) == 4 * (yi * w + xi) + 4);
                assert forall|y2: int, x2: int, c: int|
                    0 <= y2 <= yi && 0 <= x2 < w && 0 <= c < 4 && (y2 < yi || x2 < xi + 1)
                        implies out@[output_index(*dims, y2, x2, c)] == #[trigger] rgba_channel(
                        buf@,
                        *dims,
                        y2,
                        x2,
                        c,
                    ) by {
                    if y2 < yi || x2 < xi {
                        lemma_earlier_pixel(w, yi, xi, y2, x2);
                        assert(output_index(*dims, y2, x2, c) < before.len());
                        assert(out@[output_index(*dims, y2, x2, c)] == before[output_index(
                            *dims,
                            y2,
                            x2,
                            c,
                        )]);
                    } else {
                        assert(y2 == yi && x2 == xi);
                        assert(output_index(*dims, y2, x2, c) == before.len() + c);
                    }
                }
            }
            x = x + 1;
        }
        proof {
            assert(4 * ((y as int) * w + w) == 4 * ((y as int + 1) * w)) by (nonlinear_arith);
        }
        y = y + 1;
    }
    proof {
        assert(h * w == w * h) by (nonlinear_arith);
    }
    Ok(out)
}

/// The four bytes that `format` keeps in memory for the colour (red, green, blue, alpha).
pub open spec fn encode_pixel(format: PixelFormat, red: u8, green: u8, blue: u8, alpha: u8) -> Seq<
    u8,
> {
    if format.red_first() {
        seq![red, green, blue, alpha]
    } else {
        seq![blue, green, red, alpha]
    }
}

/// The alpha that normalizing yields for a stored fourth byte: opaque where the format
/// carries no alpha.
pub open spec fn normalized_alpha(format: PixelFormat, alpha: u8) -> u8 {
    if format.has_alpha() {
        alpha
    } else {
        255
    }
}

/// The four source bytes of the pixel at row `y`, column `x`.
pub open spec fn source_pixel(bytes: Seq<u8>, dims: ImageDims, y: int, x: int) -> Seq<u8> {
    bytes.subrange(source_offset(dims, y, x), source_offset(dims, y, x) + 4)
}

/// The RGBA quadruplet of the pixel at row `y`, column `x` of a normalized frame.
pub open spec fn output_pixel(out: Seq<u8>, dims: ImageDims, y: int, x: int) -> Seq<u8> {
    out.subrange(output_index(dims, y, x, 0), output_index(dims, y, x, 0) + 4)
}

/// A frame whose every pixel stores one colour in its format normalizes to that colour,
/// as red, green, blue, alpha, at every pixel, whatever the row padding holds.
pub proof fn lemma_solid_frame_round_trip(
    bytes: Seq<u8>,
    dims: ImageDims,
    out: Seq<u8>,
    red: u8,
    green: u8,
    blue: u8,
    alpha: u8,
)
    requires
        dims.wf(),
        dims.format.is_supported(),
        bytes.len() >= dims.spec_total_size(),
        forall|y: int, x: int|
            0 <= y < dims.height && 0 <= x < dims.width ==> #[trigger] source_pixel(
                bytes,
                dims,
                y,
                x,
            ) == encode_pixel(dims.format, red, green, blue, alpha),
        is_normalized(out, bytes, dims),
    ensures
        forall|y: int, x: int|
            0 <= y < dims.height && 0 <= x < dims.width ==> #[trigger] output_pixel(out, dims, y, x)
                == seq![red, green, blue, normalized_alpha(dims.format, alpha)],
{
    assert forall|y: int, x: int| 0 <= y < dims.height && 0 <= x < dims.width implies #[trigger] output_pixel(
        out,
        dims,
        y,
        x,
    ) == seq![red, green, blue, normalized_alpha(dims.format, alpha)] by {
        let w = dims.width as int;
        let h = dims.height as int;
        lemma_row_in_buffer(dims.stride as int, w, h, y, x);
        lemma_earlier_pixel(w, h, 0, y, x);
        assert(4 * (h * w) == 4 * (w * h)) by (nonlinear_arith);
        let s = dims.stride as int;
        assert(h * s == s * h) by (nonlinear_arith);
        let o = source_offset(dims, y, x);
        assert(0 <= o && o + 4 <= bytes.len());
        let src = source_pixel(bytes, dims, y, x);
        assert(src == bytes.subrange(o, o + 4));
        assert(src == encode_pixel(dims.format, red, green, blue, alpha));
        assert(src[0] == bytes[o]);
        assert(src[1] == bytes[o + 1]);
        assert(src[2] == bytes[o + 2]);
        assert(src[3] == bytes[o + 3]);
        assert(rgba_channel(bytes, dims, y, x, 0) == red);
        assert(rgba_channel(bytes, dims, y, x, 1) == green);
        assert(rgba_channel(bytes, dims, y, x, 2) == blue);
        assert(rgba_channel(bytes, dims, y, x, 3) == normalized_alpha(dims.format, alpha));
        assert(output_pixel(out, dims, y, x) =~= seq![
            red,
            green,
            blue,
            normalized_alpha(dims.format, alpha),
        ]);
    }
}

/// Blue, green, red, alpha of the overlay's placeholder pixel, as `Argb8888` keeps them.
pub open spec fn placeholder_channel(c: int) -> u8 {
    if c == 2 {
        50
    } else if c == 3 {
        128
    } else {
        0
    }
}

/// Index of channel `c` of pixel `p` in a buffer of packed 32-bit pixels.
pub open spec fn packed_index(p: int, c: int) -> int {
    4 * p + c
}

/// The content of the overlay's draw buffer: `width` times `height` translucent dark-red
/// pixels in `Argb8888`.
pub fn placeholder_pixels(width: u32, height: u32) -> (r: Vec<u8>)
    requires
        4 * (width as int * height as int) <= usize::MAX,
    ensures
        r@.len() == 4 * (width as int * height as int),
        forall|p: int, c: int|
            0 <= p < width as int * height as int && 0 <= c < 4 ==> r@[#[trigger] packed_index(p, c)]
                == placeholder_channel(c),
{
    proof {
        assert(0 <= width as int * height as int) by (nonlinear_arith);
    }
    let count: usize = (width as usize) * (height as usize);
    let mut out: Vec<u8> = Vec::new();
    let mut i: usize = 0;
    while i < count
        invariant
            count == width as int * height as int,
            4 * count <= usize::MAX,
            0 <= i <= count,
            out@.len() == 4 * i,
            forall|p: int, c: int|
                0 <= p < i && 0 <= c < 4 ==> out@[#[trigger] packed_index(p, c)]
                    == placeholder_channel(c),
        decreases count - i,
    {
        let ghost before = out@;
        out.push(0u8);
        out.push(0u8);
        out.push(50u8);
        out.push(128u8);
        proof {
            assert(out@ == before + seq![0u8, 0u8, 50u8, 128u8]);
            assert forall|p: int, c: int| 0 <= p < i + 1 && 0 <= c < 4 implies out@[
                #[trigger] packed_index(p, c)
            ] == placeholder_channel(c) by {
                if p < i {
                    assert(before[packed_index(p, c)] == placeholder_channel(c));
                } else {
                    assert(packed_index(p, c) == before.len() + c);
                }
            }
        }
        i = i + 1;
    }
    out
}

/// Index of channel `c` of the pixel at row `y`, column `x` of row-major RGBA rows of
/// `width` pixels.
pub open spec fn pixel_index(width: int, y: int, x: int, c: int) -> int {
    4 * (y * width + x) + c
}

/// A normalized image: row-major RGBA8, four bytes per pixel, no padding.
#[derive(Clone, Debug)]
pub struct RgbaFrame {
    pub width: u32,
    pub height: u32,
    pub data: Vec<u8>,
}

impl RgbaFrame {
    /// The data holds exactly the pixels.
    pub open spec fn wf(&self) -> bool {
        self.data@.len() == 4 * (self.width as int * self.height as int)
    }
}

/// The image of a captured frame: the normalizer's output with the frame's size.
pub fn normalize_frame(dims: &ImageDims, buf: &[u8]) -> (r: Result<RgbaFrame, CaptureError>)
    requires
        dims.wf(),
        buf@.len() >= dims.spec_total_size(),
    ensures
        r is Ok <==> dims.format.is_supported(),
        r is Err ==> r == Err::<RgbaFrame, CaptureError>(CaptureError::UnsupportedPixelFormat),
        r matches Ok(img) ==> img.wf() && img.width == dims.width && img.height == dims.height
            && is_normalized(img.data@, buf@, *dims),
{
    match get_rgba(dims, buf) {
        Ok(data) => Ok(RgbaFrame { width: dims.width, height: dims.height, data }),
        Err(e) => Err(e),
    }
}

/// `out` is the part of `image` that `region` selects.
pub open spec fn is_crop(out: RgbaFrame, image: RgbaFrame, region: RegionSelect) -> bool {
    let ox = region.top_left_origin.x as int;
    let oy = region.top_left_origin.y as int;
    &&& out.width == region.size.x
    &&& out.height == region.size.y
    &&& out.wf()
    &&& forall|y: int, x: int, c: int|
        0 <= y < out.height && 0 <= x < out.width && 0 <= c < 4 ==> #[trigger] out.data@[pixel_index(
            out.width as int,
            y,
            x,
            c,
        )] == image.data@[pixel_index(image.width as int, oy + y, ox + x, c)]
}

/// Cuts the selected region out of an image. A region that reaches past the image's
/// right or bottom edge is refused with `RegionOutOfBounds`, never truncated.
pub fn crop_to_region(image: &RgbaFrame, region: &RegionSelect) -> (r: Result<
    RgbaFrame,
    CaptureError,
>)
    requires
        image.wf(),
    ensures
        r is Err <==> !region.fits(image.width, image.height),
        r is Err ==> r == Err::<RgbaFrame, CaptureError>(CaptureError::RegionOutOfBounds),
        r matches Ok(out) ==> is_crop(out, *image, *region),
{
    let ox: u32 = region.top_left_origin.x;
    let oy: u32 = region.top_left_origin.y;
    let sw: u32 = region.size.x;
    let sh: u32 = region.size.y;
    if ox as u64 + sw as u64 > image.width as u64 || oy as u64 + sh as u64 > image.height as u64 {
        return Err(CaptureError::RegionOutOfBounds);
    }
    let ghost iw = image.width as int;
    let ghost ih = image.height as int;
    let n: usize = image.data.len();
    let mut out: Vec<u8> = Vec::new();
    let mut y: u32 = 0;
    while y < sh
        invariant
            image.wf(),
            n == image.data@.len(),
            iw == image.width,
            ih == image.height,
            ox + sw <= iw,
            oy + sh <= ih,
            0 <= y <= sh,
            out@.len() == 4 * (y * sw),
            forall|y2: int, x2: int, c: int|
                0 <= y2 < y && 0 <= x2 < sw && 0 <= c < 4 ==> #[trigger] out@[pixel_index(
                    sw as int,
                    y2,
                    x2,
                    c,
                )] == image.data@[pixel_index(iw, oy + y2, ox + x2, c)],
        decreases sh - y,
    {
        let mut x: u32 = 0;
        while x < sw
            invariant
                image.wf(),
                n == image.data@.len(),
                iw == image.width,
                ih == image.height,
                ox + sw <= iw,
                oy + sh <= ih,
                0 <= y < sh,
                0 <= x <= sw,
                out@.len() == 4 * (y * sw + x),
                forall|y2: int, x2: int, c: int|
                    0 <= y2 <= y && 0 <= x2 < sw && 0 <= c < 4 && (y2 < y || x2 < x)
                        ==> #[trigger] out@[pixel_index(sw as int, y2, x2, c)] == image.data@[pixel_index(
                        iw,
                        oy + y2,
                        ox + x2,
                        c,
                    )],
            decreases sw - x,
        {
            let ghost sy = oy + y;
            let ghost sx = ox + x;
            proof {
                lemma_earlier_pixel(iw, ih, 0, sy, sx);
                assert(4 * (ih * iw) == 4 * (iw * ih)) by (nonlinear_arith);
                assert(0 <= sy * iw <= sy * iw + sx) by (nonlinear_arith)
                    requires
                        sy >= 0,
                        iw >= 0,
                        sx >= 0,
                ;
            }
            let base: usize = 4 * ((oy + y) as usize * (image.width as usize) + (ox + x) as usize);
            let ghost before = out@;
            out.push(image.data[base]);
            out.push(image.data[base + 1]);
            out.push(image.data[base + 2]);
            out.push(image.data[base + 3]);
            proof {
                let yi = y as int;
                let xi = x as int;
                assert(out@ == before + seq![
                    image.data@[base as int],
                    image.data@[base + 1],
                    image.data@[base + 2],
                    image.data@[base + 3],
                ]);
                assert(4 * (yi * sw + xi + 1) == 4 * (yi * sw + xi) + 4);
                assert forall|y2: int, x2: int, c: int|
                    0 <= y2 <= yi && 0 <= x2 < sw && 0 <= c < 4 && (y2 < yi || x2 < xi + 1)
                        implies #[trigger] out@[pixel_index(sw as int, y2, x2, c)] == image.data@[pixel_index(
                        iw,
                        oy + y2,
                        ox + x2,
                        c,
                    )] by {
                    if y2 < yi || x2 < xi {
                        lemma_earlier_pixel(sw as int, yi, xi, y2, x2);
                    } else {
                        assert(pixel_index(sw as int, y2, x2, c) == before.len() + c);
                        assert(pixel_index(iw, oy + y2, ox + x2, c) == base + c);
                    }
                }
            }
            x = x + 1;
        }
        proof {
            assert(4 * ((y as int) * sw + sw) == 4 * ((y as int + 1) * sw)) by (nonlinear_arith);
        }
        y = y + 1;
    }
    proof {
        assert(sh * sw == sw * sh) by (nonlinear_arith);
    }
    Ok(RgbaFrame { width: sw, height: sh, data: out })
}

} // verus!
