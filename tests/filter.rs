use kernel_filter::filter::{apply_kernel, clamp_rgb_values, process_image, FilterError};
use kernel_filter::kernel::Kernel;
use kernel_filter::raster::RgbaImage;

fn solid(width: u32, height: u32, px: [u8; 4]) -> Vec<u8> {
    let mut v = Vec::new();
    for _ in 0..(width * height) {
        v.extend_from_slice(&px);
    }
    v
}

fn patterned(width: u32, height: u32) -> Vec<u8> {
    let mut v = Vec::new();
    for i in 0..(width * height * 4) {
        v.push(((i * 37 + 11) % 256) as u8);
    }
    v
}

fn pixel(data: &[u8], width: u32, x: u32, y: u32) -> [u8; 4] {
    let i = ((y * width + x) * 4) as usize;
    [data[i], data[i + 1], data[i + 2], data[i + 3]]
}

fn identity() -> Kernel {
    Kernel::new([0, 0, 0, 0, 1, 0, 0, 0, 0], 1).unwrap()
}

#[test]
fn identity_kernel_keeps_interior_rgb_and_alpha() {
    let src = patterned(5, 4);
    let out = process_image(identity(), src.clone(), 5, 4).unwrap();
    for y in 1..3 {
        for x in 1..4 {
            assert_eq!(pixel(&out.data, 5, x, y), pixel(&src, 5, x, y));
        }
    }
}

#[test]
fn alpha_is_copied_for_any_kernel() {
    let src = patterned(4, 4);
    let k = Kernel::new([1, -2, 3, -4, 5, -6, 7, -8, 9], 3).unwrap();
    let out = process_image(k, src.clone(), 4, 4).unwrap();
    for y in 1..3 {
        for x in 1..3 {
            assert_eq!(pixel(&out.data, 4, x, y)[3], pixel(&src, 4, x, y)[3]);
        }
    }
}

#[test]
fn border_pixels_stay_zero() {
    let src = solid(5, 4, [200, 100, 50, 255]);
    let k = Kernel::new([1, 1, 1, 1, 1, 1, 1, 1, 1], 9).unwrap();
    let out = process_image(k, src, 5, 4).unwrap();
    for y in 0..4 {
        for x in 0..5 {
            let p = pixel(&out.data, 5, x, y);
            if x == 0 || x == 4 || y == 0 || y == 3 {
                assert_eq!(p, [0, 0, 0, 0]);
            } else {
                assert_eq!(p, [200, 100, 50, 255]);
            }
        }
    }
}

#[test]
fn scaled_kernel_scales_pre_clamp_sums() {
    let img = RgbaImage::from_raw(3, 3, solid(3, 3, [10, 20, 30, 255])).unwrap();
    let k1 = Kernel::new([1, 0, 2, 0, 1, 0, -1, 0, 1], 1).unwrap();
    let k3 = Kernel::new([3, 0, 6, 0, 3, 0, -3, 0, 3], 1).unwrap();
    let s1 = apply_kernel(&k1, &img, 1, 1);
    let s3 = apply_kernel(&k3, &img, 1, 1);
    assert_eq!(s1, [40, 80, 120]);
    assert_eq!(s3, [120, 240, 360]);
}

#[test]
fn clamping_bounds() {
    assert_eq!(clamp_rgb_values([-10, 300, 128], 1), [0, 255, 128]);
    assert_eq!(clamp_rgb_values([17, 2295, -1], 9), [1, 255, 0]);
}

#[test]
fn clamping_through_a_pass() {
    let low = Kernel::new([0, 0, 0, 0, -1, 0, 0, 0, 0], 1).unwrap();
    let out = process_image(low, solid(3, 3, [10, 10, 10, 255]), 3, 3).unwrap();
    assert_eq!(pixel(&out.data, 3, 1, 1), [0, 0, 0, 255]);
    let high = Kernel::new([0, 0, 0, 0, 3, 0, 0, 0, 0], 1).unwrap();
    let out = process_image(high, solid(3, 3, [100, 100, 100, 255]), 3, 3).unwrap();
    assert_eq!(pixel(&out.data, 3, 1, 1), [255, 255, 255, 255]);
}

#[test]
fn dimensions_are_preserved() {
    let src = patterned(6, 3);
    let out = process_image(identity(), src.clone(), 6, 3).unwrap();
    assert_eq!(out.width, 6);
    assert_eq!(out.height, 3);
    assert_eq!(out.data.len(), src.len());
}

#[test]
fn box_blur_on_solid_gray() {
    let k = Kernel::new([1, 1, 1, 1, 1, 1, 1, 1, 1], 9).unwrap();
    let out = process_image(k, solid(3, 3, [128, 128, 128, 255]), 3, 3).unwrap();
    for y in 0..3 {
        for x in 0..3 {
            let expected = if x == 1 && y == 1 { [128, 128, 128, 255] } else { [0, 0, 0, 0] };
            assert_eq!(pixel(&out.data, 3, x, y), expected);
        }
    }
}

#[test]
fn sharpen_on_white() {
    let k = Kernel::new([0, -1, 0, -1, 5, -1, 0, -1, 0], 1).unwrap();
    let out = process_image(k, solid(4, 4, [255, 255, 255, 255]), 4, 4).unwrap();
    for y in 1..3 {
        for x in 1..3 {
            assert_eq!(pixel(&out.data, 4, x, y), [255, 255, 255, 255]);
        }
    }
    assert_eq!(pixel(&out.data, 4, 0, 0), [0, 0, 0, 0]);
}

#[test]
fn malformed_input_is_refused() {
    let r = process_image(identity(), vec![0u8; 10], 4, 4);
    assert_eq!(r.err(), Some(FilterError::MalformedInput));
}

#[test]
fn degenerate_image_is_refused() {
    let r = process_image(identity(), vec![7u8; 4], 1, 1);
    assert_eq!(r.err(), Some(FilterError::DegenerateImage));
    let r = process_image(identity(), vec![], 0, 5);
    assert_eq!(r.err(), Some(FilterError::DegenerateImage));
    let r = process_image(identity(), vec![7u8; 12], 3, 1);
    assert_eq!(r.err(), Some(FilterError::DegenerateImage));
}

#[test]
fn two_wide_image_has_no_interior() {
    let out = process_image(identity(), solid(2, 3, [9, 9, 9, 9]), 2, 3).unwrap();
    assert_eq!(out.data, vec![0u8; 24]);
}

#[test]
fn sobel_edge_exact_value() {
    // Left column 0, middle column 100, right column 200.
    let mut src = Vec::new();
    for _y in 0..3 {
        for x in 0..3u8 {
            src.extend_from_slice(&[x * 100, x * 50, 0, 200]);
        }
    }
    let k = Kernel::new([-1, 0, 1, -2, 0, 2, -1, 0, 1], 4).unwrap();
    let out = process_image(k, src, 3, 3).unwrap();
    // red: 4 * 200 / 4 = 200; green: 4 * 100 / 4 = 100.
    assert_eq!(pixel(&out.data, 3, 1, 1), [200, 100, 0, 200]);
}

#[test]
fn truncation_not_rounding() {
    let k = Kernel::new([0, 0, 0, 0, 1, 0, 0, 0, 0], 2).unwrap();
    let out = process_image(k, solid(3, 3, [255, 3, 1, 40]), 3, 3).unwrap();
    assert_eq!(pixel(&out.data, 3, 1, 1), [127, 1, 0, 40]);
}

#[test]
fn zero_divisor_has_no_kernel() {
    assert!(Kernel::new([1; 9], 0).is_none());
    let k = Kernel::new([4, 0, 0, 0, 0, 0, 0, 0, -7], 5).unwrap();
    assert_eq!(k.divisor(), 5);
    assert_eq!(k.weight(0), 4);
    assert_eq!(k.weight(8), -7);
}

#[test]
fn from_raw_checks_length() {
    assert!(RgbaImage::from_raw(2, 2, vec![0u8; 15]).is_none());
    let img = RgbaImage::from_raw(2, 2, patterned(2, 2)).unwrap();
    assert_eq!(img.channel_at(1, 1, 2), patterned(2, 2)[14]);
    assert_eq!(img.index_of(1, 1, 2), 14);
}
