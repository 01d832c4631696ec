use pixel_filters::{blur, edge_detection, edge_value, grayscale, luma, sobel_magnitude, ImageError};

fn uniform(width: usize, height: usize, px: [u8; 4]) -> Vec<u8> {
    let mut v = Vec::new();
    for _ in 0..width * height {
        v.extend_from_slice(&px);
    }
    v
}

fn set_px(buf: &mut [u8], width: usize, x: usize, y: usize, px: [u8; 4]) {
    let i = (y * width + x) * 4;
    buf[i..i + 4].copy_from_slice(&px);
}

fn px(buf: &[u8], width: usize, x: usize, y: usize) -> [u8; 4] {
    let i = (y * width + x) * 4;
    [buf[i], buf[i + 1], buf[i + 2], buf[i + 3]]
}

#[test]
fn luma_exact_values() {
    assert_eq!(luma(255, 255, 255), 255);
    assert_eq!(luma(0, 0, 0), 0);
    assert_eq!(luma(255, 0, 0), 76);
    assert_eq!(luma(0, 255, 0), 149);
    assert_eq!(luma(0, 0, 255), 29);
    assert_eq!(luma(100, 150, 200), 140);
}

#[test]
fn grayscale_uniform_image() {
    let mut buf = uniform(3, 3, [100, 150, 200, 255]);
    assert_eq!(grayscale(&mut buf), Ok(()));
    for y in 0..3 {
        for x in 0..3 {
            assert_eq!(px(&buf, 3, x, y), [140, 140, 140, 255]);
        }
    }
}

#[test]
fn grayscale_twice_equals_once() {
    let mut buf = vec![12, 200, 31, 7, 255, 0, 128, 90, 1, 2, 3, 4, 250, 251, 252, 253];
    grayscale(&mut buf).unwrap();
    let once = buf.clone();
    grayscale(&mut buf).unwrap();
    assert_eq!(buf, once);
}

#[test]
fn grayscale_keeps_alpha() {
    let mut buf = vec![10, 20, 30, 1, 40, 50, 60, 2, 70, 80, 90, 3];
    grayscale(&mut buf).unwrap();
    assert_eq!(buf[3], 1);
    assert_eq!(buf[7], 2);
    assert_eq!(buf[11], 3);
    assert_eq!(&buf[0..3], &[18, 18, 18]);
}

#[test]
fn grayscale_empty_buffer() {
    let mut buf: Vec<u8> = Vec::new();
    assert_eq!(grayscale(&mut buf), Ok(()));
    assert!(buf.is_empty());
}

#[test]
fn grayscale_rejects_partial_pixel() {
    let mut buf = vec![1, 2, 3, 4, 5, 6, 7];
    assert_eq!(grayscale(&mut buf), Err(ImageError::LengthMismatch));
    assert_eq!(buf, vec![1, 2, 3, 4, 5, 6, 7]);
}

#[test]
fn blur_uniform_image() {
    let mut buf = uniform(3, 3, [100, 150, 200, 255]);
    let before = buf.clone();
    assert_eq!(blur(&mut buf, 3, 3), Ok(()));
    assert_eq!(buf, before);
}

#[test]
fn blur_averages_from_snapshot() {
    let mut buf = uniform(4, 3, [0, 0, 0, 9]);
    set_px(&mut buf, 4, 1, 1, [90, 18, 100, 9]);
    set_px(&mut buf, 4, 3, 1, [27, 0, 0, 9]);
    assert_eq!(blur(&mut buf, 4, 3), Ok(()));
    assert_eq!(px(&buf, 4, 1, 1), [10, 2, 11, 9]);
    assert_eq!(px(&buf, 4, 2, 1), [13, 2, 11, 9]);
    assert_eq!(px(&buf, 4, 3, 1), [27, 0, 0, 9]);
    assert_eq!(px(&buf, 4, 0, 0), [0, 0, 0, 9]);
}

#[test]
fn blur_keeps_border_pixels() {
    let mut buf = Vec::new();
    for i in 0..(4 * 4 * 4) {
        buf.push((i * 37 % 251) as u8);
    }
    let before = buf.clone();
    blur(&mut buf, 4, 4).unwrap();
    for y in 0..4 {
        for x in 0..4 {
            if x == 0 || y == 0 || x == 3 || y == 3 {
                assert_eq!(px(&buf, 4, x, y), px(&before, 4, x, y));
            } else {
                assert_eq!(px(&buf, 4, x, y)[3], px(&before, 4, x, y)[3]);
            }
        }
    }
}

#[test]
fn blur_rejects_degenerate_dimensions() {
    let mut buf = uniform(1, 3, [5, 6, 7, 8]);
    let before = buf.clone();
    assert_eq!(blur(&mut buf, 1, 3), Err(ImageError::DegenerateDimension));
    assert_eq!(buf, before);
    assert_eq!(blur(&mut buf, 3, 1), Err(ImageError::DegenerateDimension));
    assert_eq!(buf, before);
}

#[test]
fn blur_rejects_length_mismatch() {
    let mut buf = vec![7u8; 35];
    assert_eq!(blur(&mut buf, 3, 3), Err(ImageError::LengthMismatch));
    assert_eq!(buf, vec![7u8; 35]);
}

#[test]
fn edge_detection_bright_center() {
    let mut buf = uniform(3, 3, [0, 0, 0, 255]);
    set_px(&mut buf, 3, 1, 1, [255, 255, 255, 255]);
    assert_eq!(edge_detection(&mut buf, 3, 3), Ok(()));
    // Both Sobel kernels weigh the centre by zero, and every neighbour is black.
    assert_eq!(px(&buf, 3, 1, 1), [0, 0, 0, 255]);
    for (x, y) in [(0, 0), (1, 0), (2, 0), (0, 1), (2, 1), (0, 2), (1, 2), (2, 2)] {
        assert_eq!(px(&buf, 3, x, y), [0, 0, 0, 255]);
    }
}

#[test]
fn edge_detection_bright_column() {
    let mut buf = uniform(3, 3, [0, 0, 0, 200]);
    for y in 0..3 {
        set_px(&mut buf, 3, 0, y, [255, 255, 255, 100]);
    }
    assert_eq!(edge_detection(&mut buf, 3, 3), Ok(()));
    assert_eq!(px(&buf, 3, 1, 1), [255, 255, 255, 200]);
    assert_eq!(px(&buf, 3, 0, 1), [255, 255, 255, 100]);
    assert_eq!(px(&buf, 3, 2, 1), [0, 0, 0, 200]);
}

#[test]
fn edge_detection_border_stays_gray() {
    let mut buf = uniform(3, 3, [100, 150, 200, 255]);
    edge_detection(&mut buf, 3, 3).unwrap();
    assert_eq!(px(&buf, 3, 1, 1), [0, 0, 0, 255]);
    assert_eq!(px(&buf, 3, 0, 0), [140, 140, 140, 255]);
    assert_eq!(px(&buf, 3, 2, 2), [140, 140, 140, 255]);
}

#[test]
fn edge_detection_magnitude_exactly_threshold() {
    let mut buf = uniform(3, 3, [0, 0, 0, 255]);
    for y in 0..3 {
        set_px(&mut buf, 3, 0, y, [25, 25, 25, 255]);
    }
    edge_detection(&mut buf, 3, 3).unwrap();
    assert_eq!(px(&buf, 3, 1, 1), [0, 0, 0, 255]);
}

#[test]
fn edge_detection_magnitude_above_threshold() {
    let mut buf = uniform(3, 3, [0, 0, 0, 255]);
    set_px(&mut buf, 3, 0, 0, [1, 1, 1, 255]);
    set_px(&mut buf, 3, 0, 1, [50, 50, 50, 255]);
    edge_detection(&mut buf, 3, 3).unwrap();
    assert_eq!(px(&buf, 3, 1, 1), [255, 255, 255, 255]);
}

#[test]
fn edge_detection_interior_is_binary() {
    let mut buf = Vec::new();
    for i in 0..(5 * 4 * 4) {
        buf.push((i * 91 % 256) as u8);
    }
    let before = buf.clone();
    edge_detection(&mut buf, 5, 4).unwrap();
    for y in 1..3 {
        for x in 1..4 {
            let p = px(&buf, 5, x, y);
            assert!(p[0] == 0 || p[0] == 255);
            assert_eq!(p[0], p[1]);
            assert_eq!(p[1], p[2]);
        }
    }
    for i in (3..buf.len()).step_by(4) {
        assert_eq!(buf[i], before[i]);
    }
}

#[test]
fn edge_detection_rejects_degenerate_dimensions() {
    let mut buf = uniform(1, 4, [5, 6, 7, 8]);
    let before = buf.clone();
    assert_eq!(edge_detection(&mut buf, 1, 4), Err(ImageError::DegenerateDimension));
    assert_eq!(edge_detection(&mut buf, 4, 1), Err(ImageError::DegenerateDimension));
    assert_eq!(buf, before);
}

#[test]
fn edge_detection_rejects_length_mismatch() {
    let mut buf = vec![9u8; 40];
    assert_eq!(edge_detection(&mut buf, 3, 3), Err(ImageError::LengthMismatch));
    assert_eq!(buf, vec![9u8; 40]);
}

#[test]
fn threshold_boundary() {
    assert_eq!(edge_value(100), 0);
    assert_eq!(edge_value(101), 255);
    assert_eq!(edge_value(0), 0);
    assert_eq!(edge_value(255), 255);
}

#[test]
fn magnitude_truncates_and_clamps() {
    assert_eq!(sobel_magnitude(3, 4), 5);
    assert_eq!(sobel_magnitude(0, 0), 0);
    assert_eq!(sobel_magnitude(-100, 0), 100);
    assert_eq!(sobel_magnitude(-101, -1), 101);
    assert_eq!(sobel_magnitude(10, 10), 14);
    assert_eq!(sobel_magnitude(1020, 1020), 255);
    assert_eq!(sobel_magnitude(i32::MIN, i32::MIN), 255);
}

#[test]
fn error_messages() {
    assert!(!ImageError::LengthMismatch.message().is_empty());
    assert_ne!(ImageError::LengthMismatch.message(), ImageError::DegenerateDimension.message());
}
