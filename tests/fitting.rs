use wl_bg_gallery::background_image::{
    downsize_image, fill_buffer_random, fill_buffer_with_color, fill_buffer_with_image,
    fit_image_to_screen, overlay_image, render_frame, to_wire_order, BackgroundImageError,
    RgbaBuffer,
};

/// An opaque image whose pixel (x, y) is (x, y, x + y, 255).
fn gradient(width: u32, height: u32) -> RgbaBuffer {
    let mut data = Vec::new();
    for y in 0..height {
        for x in 0..width {
            data.extend_from_slice(&[x as u8, y as u8, (x + y) as u8, 255]);
        }
    }
    RgbaBuffer { width, height, data }
}

fn bgra(rgba: &[u8]) -> Vec<u8> {
    rgba.chunks(4).flat_map(|p| [p[2], p[1], p[0], p[3]]).collect()
}

#[test]
fn scenario_c_exact_size_is_a_channel_reorder() {
    let img = gradient(3, 2);
    let expected = bgra(&img.data);
    let mut buf = vec![7u8; 3 * 2 * 4];
    assert_eq!(fill_buffer_with_image(img, 3, 2, &mut buf), Ok(()));
    assert_eq!(buf, expected);
    assert_eq!(&buf[0..4], &[0, 0, 0, 255]);
    assert_eq!(&buf[4..8], &[1, 0, 1, 255]);
}

#[test]
fn smaller_image_is_centered_without_resampling() {
    let img = gradient(2, 2);
    let out = fit_image_to_screen(RgbaBuffer { width: 2, height: 2, data: img.data.clone() }, 5, 4);
    assert_eq!((out.width, out.height), (5, 4));
    assert_eq!(out.data.len(), 5 * 4 * 4);
    // offsets floor((5-2)/2) = 1 and floor((4-2)/2) = 1
    for y in 0..4u32 {
        for x in 0..5u32 {
            let i = ((y * 5 + x) * 4) as usize;
            let px = &out.data[i..i + 4];
            if (1..3).contains(&x) && (1..3).contains(&y) {
                let j = (((y - 1) * 2 + (x - 1)) * 4) as usize;
                assert_eq!(px, &img.data[j..j + 4]);
            } else {
                assert_eq!(px, &[0, 0, 0, 0]);
            }
        }
    }
}

#[test]
fn overlay_offsets_clamp_at_zero() {
    let img = gradient(4, 2);
    let out = overlay_image(&img, 4, 4);
    assert_eq!((out.width, out.height), (4, 4));
    // rows 0 and 3 uncovered, rows 1 and 2 hold the image
    assert!(out.data[0..16].iter().all(|b| *b == 0));
    assert_eq!(&out.data[16..48], &img.data[..]);
    assert!(out.data[48..64].iter().all(|b| *b == 0));
}

#[test]
fn downsize_binds_the_axis_with_the_larger_ratio() {
    assert_eq!(dims(downsize_image(&gradient(8, 4), 4, 4)), (4, 2));
    assert_eq!(dims(downsize_image(&gradient(4, 8), 4, 4)), (2, 4));
    assert_eq!(dims(downsize_image(&gradient(8, 8), 4, 4)), (4, 4));
    assert_eq!(dims(downsize_image(&gradient(10, 3), 4, 4)), (4, 1));
    assert_eq!(dims(downsize_image(&gradient(3, 10), 4, 4)), (1, 4));
    assert_eq!(dims(downsize_image(&gradient(16, 9), 8, 8)), (8, 4));
}

#[test]
fn downsize_keeps_an_image_that_fits() {
    let img = gradient(3, 3);
    let out = downsize_image(&img, 4, 4);
    assert_eq!((out.width, out.height), (3, 3));
    assert_eq!(out.data, img.data);
}

fn dims(b: RgbaBuffer) -> (u32, u32) {
    assert_eq!(b.data.len(), (b.width * b.height * 4) as usize);
    (b.width, b.height)
}

#[test]
fn larger_image_is_resampled_and_letterboxed_to_exact_size() {
    let mut buf = vec![9u8; 4 * 4 * 4];
    assert_eq!(fill_buffer_with_image(gradient(8, 4), 4, 4, &mut buf), Ok(()));
    // resampled to 4x2, centered at row 1: rows 0 and 3 are background
    assert!(buf[0..16].iter().all(|b| *b == 0));
    assert!(buf[48..64].iter().all(|b| *b == 0));
    assert!(buf[16..48].chunks(4).all(|p| p[3] != 0));
}

#[test]
fn fitting_is_deterministic() {
    let mut a = vec![0u8; 6 * 5 * 4];
    let mut b = vec![1u8; 6 * 5 * 4];
    assert_eq!(fill_buffer_with_image(gradient(13, 7), 6, 5, &mut a), Ok(()));
    assert_eq!(fill_buffer_with_image(gradient(13, 7), 6, 5, &mut b), Ok(()));
    assert_eq!(a, b);
    assert_eq!(a.len(), 6 * 5 * 4);
}

#[test]
fn malformed_decoded_buffer_is_a_decode_error() {
    let img = RgbaBuffer { width: 3, height: 3, data: vec![0u8; 10] };
    let mut buf = vec![5u8; 2 * 2 * 4];
    assert_eq!(
        fill_buffer_with_image(img, 2, 2, &mut buf),
        Err(BackgroundImageError::ImageDecodeError)
    );
    assert!(buf.iter().all(|b| *b == 5));
}

#[test]
fn wire_order_swaps_red_and_blue() {
    let rgba = vec![1u8, 2, 3, 4, 5, 6, 7, 8];
    let mut buf = vec![0u8; 8];
    to_wire_order(&rgba, &mut buf);
    assert_eq!(buf, vec![3, 2, 1, 4, 7, 6, 5, 8]);
}

#[test]
fn flat_fill_repeats_one_pixel() {
    let mut buf = vec![0u8; 12];
    fill_buffer_with_color(&mut buf, 10, 20, 30, 40);
    assert_eq!(buf, vec![10, 20, 30, 40, 10, 20, 30, 40, 10, 20, 30, 40]);
}

#[test]
fn random_fill_uses_a_single_color() {
    let mut buf = vec![0u8; 4 * 50];
    assert_eq!(fill_buffer_random(&mut buf), Ok(()));
    let first = buf[0..4].to_vec();
    assert!(buf.chunks(4).all(|p| p == &first[..]));
}

#[test]
fn error_messages() {
    assert_eq!(BackgroundImageError::ImageOpenError.message(), "Error when opening image file");
    assert_eq!(BackgroundImageError::ImageDecodeError.message(), "Error when decoding image file");
}

#[test]
fn frame_falls_back_to_a_flat_color() {
    let mut buf = vec![0u8; 2 * 2 * 4];
    assert_eq!(render_frame(None, 2, 2, &mut buf), Ok(()));
    assert!(buf.chunks(4).all(|p| p == &buf[0..4]));
    let mut buf = vec![0u8; 2 * 2 * 4];
    assert_eq!(
        render_frame(Some(Err(BackgroundImageError::ImageOpenError)), 2, 2, &mut buf),
        Err(BackgroundImageError::ImageOpenError)
    );
    assert!(buf.chunks(4).all(|p| p == &buf[0..4]));
    let bad = RgbaBuffer { width: 5, height: 5, data: vec![1u8; 3] };
    assert_eq!(render_frame(Some(Ok(bad)), 2, 2, &mut buf), Err(BackgroundImageError::ImageDecodeError));
    assert!(buf.chunks(4).all(|p| p == &buf[0..4]));
}

#[test]
fn frame_of_a_decoded_image_is_the_fitted_image() {
    let img = gradient(2, 2);
    let expected = bgra(&img.data);
    let mut buf = vec![0u8; 2 * 2 * 4];
    assert_eq!(render_frame(Some(Ok(img)), 2, 2, &mut buf), Ok(()));
    assert_eq!(buf, expected);
}

#[test]
fn downsize_touches_the_target_on_one_axis() {
    for (w, h) in [(9u32, 2u32), (2, 9), (7, 7), (30, 11), (5, 40)] {
        let out = downsize_image(&gradient(w, h), 4, 3);
        assert!(out.width <= 4 && out.height <= 3);
        assert!(out.width == 4 || out.height == 3);
    }
}
