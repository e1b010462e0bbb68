use heprint::render::{fit_size, render_qrcode};

#[test]
fn test_qrcode_basic() {
    let bmp = render_qrcode("hello").unwrap();
    assert!(bmp.width > 0);
    assert_eq!(bmp.width, bmp.height);
}

#[test]
fn fit_size_preserves_aspect_ratio() {
    assert_eq!(fit_size(595, 842, 2480, 3508), (2479, 3508));
    assert_eq!(fit_size(842, 595, 2480, 3508), (2480, 1752));
}
