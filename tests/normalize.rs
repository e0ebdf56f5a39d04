use rshot::error::CaptureError;
use rshot::frame::{
    plan_buffer, BufferPlan, ImageDims, PixelFormat, FORMAT_ABGR8888, FORMAT_ARGB8888,
    FORMAT_XBGR8888, FORMAT_XRGB8888,
};
use rshot::render::{crop_to_region, get_rgba, normalize_frame, placeholder_pixels, RgbaFrame};
use rshot::argparser::{Point, RegionSelect};

fn dims(width: u32, height: u32, stride: u32, format: PixelFormat) -> ImageDims {
    ImageDims { width, height, stride, format }
}

#[test]
fn bgrx_two_pixels() {
    let d = dims(2, 1, 8, PixelFormat::Xrgb8888);
    let bytes = [0x00, 0x00, 0xFF, 0xFF, 0xFF, 0x00, 0x00, 0xFF];
    let out = get_rgba(&d, &bytes).unwrap();
    assert_eq!(out, vec![255, 0, 0, 255, 0, 0, 255, 255]);
}

#[test]
fn padding_is_dropped() {
    // two rows of three pixels, stride of 16 bytes: four bytes of padding per row
    let d = dims(3, 2, 16, PixelFormat::Argb8888);
    let mut bytes = vec![0xEEu8; 32];
    for y in 0..2usize {
        for x in 0..3usize {
            let o = y * 16 + x * 4;
            bytes[o] = (10 * y + x) as u8; // blue
            bytes[o + 1] = 1;
            bytes[o + 2] = 2;
            bytes[o + 3] = 3;
        }
    }
    let out = get_rgba(&d, &bytes).unwrap();
    assert_eq!(out.len(), 3 * 2 * 4);
    assert_eq!(
        out,
        vec![
            2, 1, 0, 3, 2, 1, 1, 3, 2, 1, 2, 3, //
            2, 1, 10, 3, 2, 1, 11, 3, 2, 1, 12, 3,
        ]
    );
}

#[test]
fn entry_count_ignores_padding() {
    for (w, h, s) in [(1u32, 1u32, 4u32), (5, 3, 20), (5, 3, 64), (7, 2, 29), (0, 4, 8)] {
        let d = dims(w, h, s, PixelFormat::Xbgr8888);
        let bytes = vec![7u8; (s * h) as usize];
        let out = get_rgba(&d, &bytes).unwrap();
        assert_eq!(out.len(), (4 * w * h) as usize);
    }
}

fn solid(format: PixelFormat, px: [u8; 4], w: u32, h: u32, stride: u32) -> Vec<u8> {
    let mut bytes = vec![0x55u8; (stride * h) as usize];
    for y in 0..h as usize {
        for x in 0..w as usize {
            let o = y * stride as usize + 4 * x;
            bytes[o..o + 4].copy_from_slice(&px);
        }
    }
    let d = dims(w, h, stride, format);
    get_rgba(&d, &bytes).unwrap()
}

#[test]
fn solid_colour_round_trip_each_format() {
    let (r, g, b, a) = (200u8, 100u8, 50u8, 25u8);
    let cases = [
        (PixelFormat::Argb8888, [b, g, r, a], a),
        (PixelFormat::Xrgb8888, [b, g, r, a], 255),
        (PixelFormat::Abgr8888, [r, g, b, a], a),
        (PixelFormat::Xbgr8888, [r, g, b, a], 255),
    ];
    for (format, stored, alpha) in cases {
        let out = solid(format, stored, 4, 3, 24);
        assert_eq!(out.len(), 4 * 3 * 4);
        for px in out.chunks(4) {
            assert_eq!(px, &[r, g, b, alpha]);
        }
    }
}

#[test]
fn unsupported_format_is_refused() {
    let d = dims(1, 1, 4, PixelFormat::Unsupported(0x3432_5241));
    assert_eq!(get_rgba(&d, &[1, 2, 3, 4]), Err(CaptureError::UnsupportedPixelFormat));
    assert!(matches!(normalize_frame(&d, &[1, 2, 3, 4]), Err(CaptureError::UnsupportedPixelFormat)));
}

#[test]
fn normalize_frame_keeps_size() {
    let d = dims(1, 2, 4, PixelFormat::Abgr8888);
    let img = normalize_frame(&d, &[1, 2, 3, 4, 5, 6, 7, 8]).unwrap();
    assert_eq!((img.width, img.height), (1, 2));
    assert_eq!(img.data, vec![1, 2, 3, 4, 5, 6, 7, 8]);
}

#[test]
fn format_codes() {
    assert_eq!(PixelFormat::from_code(FORMAT_ARGB8888), PixelFormat::Argb8888);
    assert_eq!(PixelFormat::from_code(FORMAT_XRGB8888), PixelFormat::Xrgb8888);
    assert_eq!(PixelFormat::from_code(FORMAT_ABGR8888), PixelFormat::Abgr8888);
    assert_eq!(PixelFormat::from_code(FORMAT_XBGR8888), PixelFormat::Xbgr8888);
    assert_eq!(PixelFormat::from_code(7), PixelFormat::Unsupported(7));
    assert_eq!(PixelFormat::Xbgr8888.code(), 0x34324258);
    assert!(!PixelFormat::Unsupported(7).supported());
    assert!(PixelFormat::Argb8888.supported());
}

#[test]
fn total_size_and_default() {
    let d = ImageDims::default();
    assert_eq!((d.width, d.height, d.stride, d.format), (0, 0, 0, PixelFormat::Xbgr8888));
    assert_eq!(dims(3, 5, 16, PixelFormat::Argb8888).total_size(), 80);
    assert_eq!(dims(1, u32::MAX, u32::MAX, PixelFormat::Argb8888).total_size(), (u32::MAX as u64) * (u32::MAX as u64));
}

#[test]
fn buffer_length_is_stride_times_height() {
    let mut seed: u64 = 0x2545_F491_4F6C_DD1D;
    for _ in 0..200 {
        seed ^= seed << 13;
        seed ^= seed >> 7;
        seed ^= seed << 17;
        let w = (seed % 3000) as u32;
        let h = ((seed >> 16) % 3000 + 1) as u32;
        let s = 4 * w + ((seed >> 32) % 64) as u32 + 1;
        let d = dims(w, h, s, PixelFormat::Xrgb8888);
        let expected = s as u64 * h as u64;
        match plan_buffer(&d) {
            Ok(p) => {
                assert!(expected <= i32::MAX as u64);
                assert_eq!(p.pool_size as u64, expected);
                assert_eq!((p.width, p.height, p.stride, p.offset), (w as i32, h as i32, s as i32, 0));
                assert_eq!(p.format, FORMAT_XRGB8888);
            }
            Err(e) => {
                assert_eq!(e, CaptureError::AllocationFailure);
                assert!(expected > i32::MAX as u64);
            }
        }
    }
}

#[test]
fn buffer_plan_rejections() {
    assert_eq!(plan_buffer(&dims(4, 0, 16, PixelFormat::Argb8888)), Err(CaptureError::AllocationFailure));
    assert_eq!(plan_buffer(&dims(0, 4, 0, PixelFormat::Argb8888)), Err(CaptureError::AllocationFailure));
    assert_eq!(plan_buffer(&dims(40000, 40000, 160000, PixelFormat::Argb8888)), Err(CaptureError::AllocationFailure));
    assert_eq!(plan_buffer(&dims(5, 2, 16, PixelFormat::Argb8888)), Err(CaptureError::ProtocolFailure));
    assert_eq!(
        plan_buffer(&dims(1920, 1080, 7680, PixelFormat::Xbgr8888)),
        Ok(BufferPlan { pool_size: 8294400, offset: 0, width: 1920, height: 1080, stride: 7680, format: FORMAT_XBGR8888 })
    );
}

fn frame_3x2() -> RgbaFrame {
    let data: Vec<u8> = (0u8..24).collect();
    RgbaFrame { width: 3, height: 2, data }
}

fn region(x: u32, y: u32, w: u32, h: u32) -> RegionSelect {
    RegionSelect { top_left_origin: Point { x, y }, size: Point { x: w, y: h } }
}

#[test]
fn crop_inside() {
    let out = crop_to_region(&frame_3x2(), &region(1, 1, 2, 1)).unwrap();
    assert_eq!((out.width, out.height), (2, 1));
    assert_eq!(out.data, vec![16, 17, 18, 19, 20, 21, 22, 23]);
    let whole = crop_to_region(&frame_3x2(), &region(0, 0, 3, 2)).unwrap();
    assert_eq!(whole.data, frame_3x2().data);
}

#[test]
fn crop_out_of_bounds() {
    assert_eq!(crop_to_region(&frame_3x2(), &region(2, 0, 2, 1)).unwrap_err(), CaptureError::RegionOutOfBounds);
    assert_eq!(crop_to_region(&frame_3x2(), &region(0, 1, 1, 2)).unwrap_err(), CaptureError::RegionOutOfBounds);
    assert_eq!(crop_to_region(&frame_3x2(), &region(4, 0, 0, 0)).unwrap_err(), CaptureError::RegionOutOfBounds);
    assert_eq!(crop_to_region(&frame_3x2(), &region(u32::MAX, 0, 2, 1)).unwrap_err(), CaptureError::RegionOutOfBounds);
}

#[test]
fn placeholder_fill() {
    let px = placeholder_pixels(3, 2);
    assert_eq!(px.len(), 24);
    for p in px.chunks(4) {
        assert_eq!(p, &[0, 0, 50, 128]);
    }
    assert!(placeholder_pixels(0, 9).is_empty());
}
