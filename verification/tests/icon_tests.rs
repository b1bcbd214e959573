use adwapach::icon::{create_icon_buffer, IconError};

fn png_pixel(pixel: [u8; 4]) -> Vec<u8> {
    let img = image::RgbaImage::from_pixel(1, 1, image::Rgba(pixel));
    let mut bytes: Vec<u8> = Vec::new();
    image::DynamicImage::ImageRgba8(img)
        .write_to(&mut std::io::Cursor::new(&mut bytes), image::ImageFormat::Png)
        .unwrap();
    bytes
}

#[test]
fn icon_buffer_swaps_red_and_blue_and_inverts_alpha() {
    let data = png_pixel([10, 20, 30, 40]);
    let (bgra, mask, w, h) = create_icon_buffer(&data).unwrap();
    assert_eq!((w, h), (1, 1));
    assert_eq!(bgra, vec![30, 20, 10, 40]);
    assert_eq!(mask, vec![41]);
}

#[test]
fn icon_mask_wraps_opaque_alpha_to_zero() {
    let data = png_pixel([1, 2, 3, 255]);
    let (bgra, mask, _, _) = create_icon_buffer(&data).unwrap();
    assert_eq!(bgra, vec![3, 2, 1, 255]);
    assert_eq!(mask, vec![0]);
}

#[test]
fn icon_from_undecodable_bytes_fails() {
    let data = vec![1u8, 2, 3, 4];
    let r = create_icon_buffer(&data);
    assert!(matches!(r, Err(IconError::Undecodable)));
}
