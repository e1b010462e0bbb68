use heprint::error::{ErrorCode, HeError};
use heprint::render::{
    check_pdf, decode_image_data, decode_page_png, extract_base64, fit_size, image_source, pdf_from_base64, pdf_source,
    render_barcode, render_html_placeholder, render_qrcode, rgba_to_bgra, Bitmap, ImageSource,
};
use heprint::types::{BarcodeType, Rect};

fn coded(r: Result<impl std::fmt::Debug, HeError>) -> (ErrorCode, String) {
    match r {
        Err(HeError::Coded { code, message }) => (code, message),
        other => panic!("expected a coded error, got {other:?}"),
    }
}

#[test]
fn new_bitmap_is_white_and_set_writes_one_pixel() {
    let mut b = Bitmap::new(2, 3);
    assert_eq!(b.pixels.len(), 24);
    assert!(b.pixels.iter().all(|&x| x == 255));
    b.set(1, 2, [1, 2, 3, 4]);
    assert_eq!(&b.pixels[20..24], &[1, 2, 3, 4]);
    assert_eq!(b.pixels.iter().filter(|&&x| x != 255).count(), 4);
    b.set(2, 0, [0, 0, 0, 0]);
    b.set(0, 3, [0, 0, 0, 0]);
    assert_eq!(b.pixels.iter().filter(|&&x| x != 255).count(), 4);
}

#[test]
fn qr_code_is_square_with_eight_pixel_modules() {
    let bmp = render_qrcode("hello").unwrap();
    assert_eq!(bmp.width, 21 * 8);
    assert_eq!(bmp.height, 21 * 8);
    assert_eq!(bmp.pixels.len(), (168 * 168 * 4) as usize);
    // The finder pattern makes the top-left module dark.
    assert_eq!(&bmp.pixels[0..4], &[0, 0, 0, 255]);
    // Module (7, 0) is the light separator next to the finder pattern.
    let off = (7 * 8 * 4) as usize;
    assert_eq!(&bmp.pixels[off..off + 4], &[255, 255, 255, 255]);
}

#[test]
fn only_qr_codes_are_drawn() {
    let bmp = render_barcode(BarcodeType::QRCode, "https://example.com/order/001").unwrap();
    assert_eq!(bmp.width, bmp.height);
    let (code, msg) = coded(render_barcode(BarcodeType::Code128, "123"));
    assert_eq!(code, ErrorCode::InvalidBarcodeType);
    assert_eq!(msg, "条码类型 Code128 暂未实现，目前仅支持 QRCode");
    let (_, msg) = coded(render_barcode(BarcodeType::UpcA, "123"));
    assert_eq!(msg, "条码类型 UpcA 暂未实现，目前仅支持 QRCode");
}

#[test]
fn data_too_long_for_a_qr_code_is_refused() {
    let long = "x".repeat(5000);
    let (code, msg) = coded(render_qrcode(&long));
    assert_eq!(code, ErrorCode::Unknown);
    assert_eq!(msg, "QR 生成失败: data too long");
}

#[test]
fn html_placeholder_is_empty() {
    assert!(render_html_placeholder("<p>x</p>", Rect::new(0, 0, 1, 1)).unwrap().is_empty());
}

#[test]
fn base64_payload_of_data_urls() {
    assert_eq!(extract_base64("data:image/png;base64,AAAA").as_deref(), Some("AAAA"));
    assert_eq!(extract_base64("data:image/png,AAAA"), None);
    assert_eq!(extract_base64("image/png;base64,AAAA"), None);
}

#[test]
fn image_sources() {
    match image_source("data:image/png;base64,AQID").unwrap() {
        ImageSource::Inline(b) => assert_eq!(b, vec![1, 2, 3]),
        other => panic!("unexpected source {other:?}"),
    }
    match image_source("C:\\logo.png").unwrap() {
        ImageSource::File(f) => assert_eq!(f, "C:\\logo.png"),
        other => panic!("unexpected source {other:?}"),
    }
    let (code, msg) = coded(image_source("https://example.com/a.png"));
    assert_eq!(code, ErrorCode::Unknown);
    assert_eq!(msg, "URL 图片下载未实现（v1 仅支持 base64 / 本地路径）");
    let (code, msg) = coded(image_source("data:image/png;base64,@@"));
    assert_eq!(code, ErrorCode::ImageDecodeFailed);
    assert!(msg.starts_with("base64 解码失败: "));
}

#[test]
fn undecodable_image_bytes_are_refused() {
    let (code, _) = coded(decode_image_data(vec![1, 2, 3]));
    assert_eq!(code, ErrorCode::ImageDecodeFailed);
}

#[test]
fn pdf_sources_and_checks() {
    assert_eq!(pdf_source("data:application/pdf;base64,JVBERi0=").unwrap(), Some(b"%PDF-".to_vec()));
    assert_eq!(pdf_source("JVBERi0=").unwrap(), None);
    let (code, msg) = coded(pdf_source("data:application/pdf,xyz"));
    assert_eq!((code, msg.as_str()), (ErrorCode::PdfDecodeFailed, "PDF data URL is not base64 encoded"));
    let (_, msg) = coded(pdf_source("https://x/y.pdf"));
    assert_eq!(msg, "Remote PDF URLs are not supported; upload the PDF as a data URL");
    assert_eq!(pdf_from_base64("JVBERi0=").unwrap(), b"%PDF-".to_vec());
    let (_, msg) = coded(pdf_from_base64("!!"));
    assert!(msg.starts_with("Invalid PDF content: "));
    assert_eq!(check_pdf(b"%PDF-1.4".to_vec()).unwrap(), b"%PDF-1.4".to_vec());
    let (code, msg) = coded(check_pdf(b"GIF89a".to_vec()));
    assert_eq!((code, msg.as_str()), (ErrorCode::PdfDecodeFailed, "Content is not a PDF document"));
    let (code, _) = coded(check_pdf(vec![0u8; 104857601]));
    assert_eq!(code, ErrorCode::DataTooLarge);
}

#[test]
fn fit_size_bounds_and_degenerate_sizes() {
    assert_eq!(fit_size(300, 400, 600, 800), (600, 800));
    assert_eq!(fit_size(100, 100, 0, 0), (1, 1));
    assert_eq!(fit_size(100, 50, 10000, 10000), (6000, 3000));
    assert_eq!(fit_size(0, 0, 100, 100), (1, 1));
    assert_eq!(fit_size(0, 10, 100, 100), (1, 100));
}

#[test]
fn rgba_becomes_bgra() {
    assert_eq!(rgba_to_bgra(&[1, 2, 3, 4, 5, 6, 7, 8, 9]), vec![3, 2, 1, 4, 7, 6, 5, 8]);
}

#[test]
fn image_bytes_decode() {
    let img = image::RgbaImage::from_pixel(2, 1, image::Rgba([1, 2, 3, 255]));
    let mut png = Vec::new();
    image::DynamicImage::ImageRgba8(img)
        .write_to(&mut std::io::Cursor::new(&mut png), image::ImageFormat::Png)
        .unwrap();
    let decoded = decode_image_data(png.clone()).unwrap();
    assert_eq!((decoded.width, decoded.height), (2, 1));
    assert_eq!(decoded.pixels, vec![1, 2, 3, 255, 1, 2, 3, 255]);
    let page = decode_page_png(png).unwrap();
    assert_eq!(page.pixels, decoded.pixels);
    let (code, _) = coded(decode_page_png(vec![1, 2, 3]));
    assert_eq!(code, ErrorCode::PdfDecodeFailed);
}
