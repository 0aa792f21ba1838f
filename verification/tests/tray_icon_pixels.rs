use mouse_shaker::App;

const TWO_PIXEL_PNG: [u8; 72] = [
    137, 80, 78, 71, 13, 10, 26, 10, 0, 0, 0, 13, 73, 72, 68, 82, 0, 0, 0, 2, 0, 0, 0, 1, 8, 6, 0,
    0, 0, 244, 34, 127, 138, 0, 0, 0, 15, 73, 68, 65, 84, 120, 156, 99, 248, 207, 192, 240, 31, 8,
    27, 0, 16, 121, 3, 126, 125, 99, 206, 215, 0, 0, 0, 0, 73, 69, 78, 68, 174, 66, 96, 130,
];

#[test]
fn tray_icon_decodes_png_to_rgba_pixels() {
    let icon = App::load_tray_icon(&TWO_PIXEL_PNG).expect("valid PNG");
    assert_eq!(icon.width, 2);
    assert_eq!(icon.height, 1);
    assert_eq!(icon.rgba, vec![255, 0, 0, 255, 0, 255, 0, 128]);
}

#[test]
fn tray_icon_rejects_bytes_that_are_no_image() {
    assert!(App::load_tray_icon(b"not an image").is_none());
    assert!(App::load_tray_icon(&TWO_PIXEL_PNG[..40]).is_none());
}
