//! Turning items into printable pixels: bitmaps, QR codes, and the source
//! data of images and PDF documents.

use vstd::prelude::*;
use crate::error::{ErrorCode, HeError, code_message, is_coded};
use crate::codec::{base64_decode, base64_standard_decode};
use crate::text::{chars_from, chars_of, find_chars, first_occurrence, has_prefix, occurs_at, starts_with_chars};
use crate::types::{BarcodeType, Rect};
use vstd::string::StringSliceAdditionalSpecFns;
use vstd::utf8::encode_utf8;
use vstd::string::StringExecFns;

verus! {

/// An RGBA bitmap, four bytes per pixel, row by row.
#[derive(Debug, Clone)]
pub struct Bitmap {
    pub width: u32,
    pub height: u32,
    pub pixels: Vec<u8>,
}

/// Whether a bitmap's pixel data has the length its size asks for, and
/// every byte offset fits in `u32`.
pub open spec fn bitmap_wf(b: Bitmap) -> bool {
    &&& b.width * b.height * 4 <= u32::MAX
    &&& b.pixels@.len() == b.width * b.height * 4
}

/// The byte offset of pixel `(x, y)` in a bitmap `w` pixels wide.
pub open spec fn pixel_offset(w: int, x: int, y: int) -> int {
    (y * w + x) * 4
}

proof fn lemma_offset_fits(w: int, h: int, x: int, y: int)
    requires
        0 <= x < w,
        0 <= y < h,
    ensures
        0 <= pixel_offset(w, x, y),
        pixel_offset(w, x, y) + 4 <= w * h * 4,
{
    assert(y * w + x < w * h) by (nonlinear_arith)
        requires
            0 <= x < w,
            0 <= y < h,
    ;
    assert(0 <= y * w) by (nonlinear_arith)
        requires
            0 <= x < w,
            0 <= y < h,
    ;
}

impl Bitmap {
    /// A white, opaque bitmap of this size.
    pub fn new(width: u32, height: u32) -> (r: Bitmap)
        requires
            width * height * 4 <= u32::MAX,
        ensures
            r.width == width,
            r.height == height,
            r.pixels@ == Seq::new((width * height * 4) as nat, |i: int| 255u8),
            bitmap_wf(r),
    {
        let n = width * height * 4;
        let pixels = vec![255u8; n as usize];
        assert(pixels@ =~= Seq::new((width * height * 4) as nat, |i: int| 255u8));
        Bitmap { width, height, pixels }
    }

    /// Sets pixel `(x, y)`; a pixel outside the bitmap is ignored.
    pub fn set(&mut self, x: u32, y: u32, rgba: [u8; 4])
        requires
            bitmap_wf(*old(self)),
        ensures
            final(self).width == old(self).width,
            final(self).height == old(self).height,
            bitmap_wf(*final(self)),
            x >= old(self).width || y >= old(self).height ==> final(self).pixels@ == old(self).pixels@,
            x < old(self).width && y < old(self).height ==> final(self).pixels@ == old(self).pixels@.update(
                pixel_offset(old(self).width as int, x as int, y as int),
                rgba[0],
            ).update(pixel_offset(old(self).width as int, x as int, y as int) + 1, rgba[1]).update(
                pixel_offset(old(self).width as int, x as int, y as int) + 2,
                rgba[2],
            ).update(pixel_offset(old(self).width as int, x as int, y as int) + 3, rgba[3]),
    {
        if x >= self.width || y >= self.height {
            return;
        }
        proof {
            lemma_offset_fits(self.width as int, self.height as int, x as int, y as int);
        }
        let idx = ((y * self.width + x) * 4) as usize;
        self.pixels.set(idx, rgba[0]);
        self.pixels.set(idx + 1, rgba[1]);
        self.pixels.set(idx + 2, rgba[2]);
        self.pixels.set(idx + 3, rgba[3]);
    }
}

/// What `qrcode` encodes a byte string to at error-correction level M: the
/// modules row by row (`true` for dark), or the text of its error.
pub uninterp spec fn qr_modules_m(data: Seq<u8>) -> Result<Seq<bool>, Seq<char>>;

/// The square of a number.
pub open spec fn square(w: nat) -> nat {
    w * w
}

/// Whether `n` is the module count of a QR code of version 1 to 40: the
/// square of a side of 21 to 177.
pub open spec fn is_qr_module_count(n: nat) -> bool {
    exists|w: nat| 21 <= w <= 177 && n == #[trigger] square(w)
}

/// `QrCode::with_error_correction_level(data, EcLevel::M)`, then `to_vec`
/// (one entry per module, `true` for dark, row by row), or the error's
/// text. The result is named, not restated. The crate only builds
/// normal QR codes here (`encode_auto` picks versions 1 to 40), so the side
/// is 21 to 177 modules and the list has side² entries (`Canvas::new`,
/// `Version::width`).
#[verifier::external_body]
#[allow(deprecated)]
fn qr_modules(data: &[u8]) -> (r: Result<Vec<bool>, String>)
    ensures
        match r {
            Ok(v) => qr_modules_m(data@) == Ok::<Seq<bool>, Seq<char>>(v@) && is_qr_module_count(
                v@.len(),
            ),
            Err(e) => qr_modules_m(data@) == Err::<Seq<bool>, Seq<char>>(e@),
        },
{
    match qrcode::QrCode::with_error_correction_level(data, qrcode::EcLevel::M) {
        Ok(code) => Ok(code.to_vec()),
        Err(e) => Err(e.to_string()),
    }
}

/// Pixels per module side in a rendered QR code.
pub const QR_SCALE: u32 = 8;

/// The byte at offset `i` of a QR code drawn with `QR_SCALE`-pixel modules:
/// black for a dark module, white otherwise, always opaque.
pub open spec fn qr_byte(mods: Seq<bool>, side: int, i: int) -> u8 {
    let img = side * QR_SCALE;
    let p = i / 4;
    let px = p % img;
    let py = p / img;
    if i % 4 == 3 {
        255
    } else if mods[(py / QR_SCALE as int) * side + px / QR_SCALE as int] {
        0
    } else {
        255
    }
}

/// The bitmap of a QR code with these modules and this side.
pub open spec fn qr_bitmap_ok(b: Bitmap, mods: Seq<bool>, side: int) -> bool {
    &&& b.width == side * QR_SCALE
    &&& b.height == side * QR_SCALE
    &&& b.pixels@ == Seq::new((side * QR_SCALE * side * QR_SCALE * 4) as nat, |i: int| qr_byte(mods, side, i))
}

/// The side of a square with `n` cells, when `n` is a square of at most
/// 177².
fn square_side(n: usize) -> (r: u32)
    requires
        is_qr_module_count(n as nat),
    ensures
        r * r == n,
        21 <= r <= 177,
{
    let ghost w = choose|w: nat| 21 <= w <= 177 && n == #[trigger] square(w);
    let mut s: u32 = 0;
    while (s as usize) * (s as usize) < n
        invariant
            s <= w,
            w <= 177,
            n == w * w,
            s * s <= 31329,
        decreases w - s,
    {
        assert(s < w) by (nonlinear_arith)
            requires
                s * s < w * w,
                s <= w,
        ;
        s = s + 1;
        assert(s * s <= 31329) by (nonlinear_arith)
            requires
                s <= 177,
        ;
    }
    assert(s * s >= w * w);
    assert(s == w) by (nonlinear_arith)
        requires
            s * s >= w * w,
            s <= w,
    ;
    s
}

proof fn lemma_pixel_bytes(img: int, py: int, px: int, c: int)
    requires
        img > 0,
        0 <= px < img,
        0 <= py,
        0 <= c < 4,
    ensures
        ((py * img + px) * 4 + c) / 4 == py * img + px,
        ((py * img + px) * 4 + c) % 4 == c,
        (py * img + px) % img == px,
        (py * img + px) / img == py,
{
    vstd::arithmetic::div_mod::lemma_fundamental_div_mod_converse((py * img + px) * 4 + c, 4, py * img + px, c);
    vstd::arithmetic::div_mod::lemma_fundamental_div_mod_converse(py * img + px, img, py, px);
}

proof fn lemma_module_index(side: int, py: int, px: int)
    requires
        side > 0,
        0 <= py < side * 8,
        0 <= px < side * 8,
    ensures
        0 <= (py / 8) * side + px / 8 < side * side,
{
    assert(py / 8 < side);
    assert(px / 8 < side);
    assert((py / 8) * side + px / 8 < side * side) by (nonlinear_arith)
        requires
            0 <= py / 8 < side,
            0 <= px / 8 < side,
    ;
    assert(0 <= (py / 8) * side) by (nonlinear_arith)
        requires
            0 <= py / 8,
            0 <= side,
    ;
}

/// Whether `r` is the drawing of the QR code of `data`, or its failure.
pub open spec fn qr_drawn(data: Seq<u8>, r: Result<Bitmap, HeError>) -> bool {
    match qr_modules_m(data) {
        Ok(mods) => r matches Ok(b) && {
            let side = b.width / QR_SCALE;
            &&& b.width == side * QR_SCALE
            &&& side > 0
            &&& side * side == mods.len()
            &&& qr_bitmap_ok(b, mods, side as int)
        },
        Err(e) => r matches Err(x) && is_coded(x, ErrorCode::Unknown, "QR 生成失败: "@ + e),
    }
}

/// Draws a QR code of `value` at level M, each module `QR_SCALE` pixels
/// square.
pub fn render_qrcode(value: &str) -> (r: Result<Bitmap, HeError>)
    ensures
        qr_drawn(encode_utf8(value@), r),
{
    let bytes = value.as_bytes();
    assert(bytes@ == encode_utf8(value@));
    let modules = match qr_modules(bytes) {
        Ok(m) => m,
        Err(e) => {
            return Err(HeError::coded(ErrorCode::Unknown, "QR 生成失败: ".to_owned().concat(e.as_str())));
        },
    };
    let ghost mods = modules@;
    let side = square_side(modules.len());
    assert(side * side <= 31329) by (nonlinear_arith)
        requires
            side <= 177,
    ;
    let img = side * QR_SCALE;
    let ghost total = (img * img * 4) as int;
    assert(img * img * 4 <= 0xffff_ffff) by (nonlinear_arith)
        requires
            img == side * 8,
            side <= 177,
    ;
    let mut pixels: Vec<u8> = Vec::new();
    let mut py: u32 = 0;
    while py < img
        invariant
            img == side * QR_SCALE,
            21 <= side <= 177,
            mods == modules@,
            mods.len() == side * side,
            side * side <= 31329,
            img * img * 4 <= 0xffff_ffff,
            py <= img,
            pixels@.len() == py * img * 4,
            forall|i: int| 0 <= i < pixels@.len() ==> pixels@[i] == qr_byte(mods, side as int, i),
        decreases img - py,
    {
        let mut px: u32 = 0;
        while px < img
            invariant
                img == side * QR_SCALE,
                21 <= side <= 177,
                mods == modules@,
                mods.len() == side * side,
                side * side <= 31329,
                img * img * 4 <= 0xffff_ffff,
                py < img,
                px <= img,
                pixels@.len() == (py * img + px) * 4,
                forall|i: int| 0 <= i < pixels@.len() ==> pixels@[i] == qr_byte(mods, side as int, i),
            decreases img - px,
        {
            proof {
                lemma_module_index(side as int, py as int, px as int);
                assert(py * img + px < img * img) by (nonlinear_arith)
                    requires
                        py < img,
                        px < img,
                ;
            }
            let k = ((py / QR_SCALE) * side + px / QR_SCALE) as usize;
            let v: u8 = if modules[k] { 0 } else { 255 };
            let ghost base = (py * img + px) * 4;
            proof {
                lemma_pixel_bytes(img as int, py as int, px as int, 0);
                lemma_pixel_bytes(img as int, py as int, px as int, 1);
                lemma_pixel_bytes(img as int, py as int, px as int, 2);
                lemma_pixel_bytes(img as int, py as int, px as int, 3);
            }
            pixels.push(v);
            pixels.push(v);
            pixels.push(v);
            pixels.push(255);
            assert(pixels@[base] == qr_byte(mods, side as int, base));
            assert(pixels@[base + 1] == qr_byte(mods, side as int, base + 1));
            assert(pixels@[base + 2] == qr_byte(mods, side as int, base + 2));
            assert(pixels@[base + 3] == qr_byte(mods, side as int, base + 3));
            px = px + 1;
        }
        assert((py * img + img) * 4 == (py + 1) * img * 4) by (nonlinear_arith);
        py = py + 1;
    }
    let b = Bitmap { width: img, height: img, pixels };
    assert(img * img * 4 == side * QR_SCALE * side * QR_SCALE * 4) by (nonlinear_arith)
        requires
            img == side * QR_SCALE,
    ;
    assert(b.pixels@ =~= Seq::new((side * QR_SCALE * side * QR_SCALE * 4) as nat, |i: int| qr_byte(mods, side as int, i)));
    assert(qr_bitmap_ok(b, mods, side as int));
    assert(qr_modules_m(encode_utf8(value@)) == Ok::<Seq<bool>, Seq<char>>(mods));
    assert(b.width / QR_SCALE == side);
    let out: Result<Bitmap, HeError> = Ok(b);
    assert(qr_drawn(encode_utf8(value@), out));
    out
}

/// The name a barcode type is written with in messages.
pub open spec fn barcode_name(b: BarcodeType) -> Seq<char> {
    match b {
        BarcodeType::QRCode => "QRCode"@,
        BarcodeType::Code128 => "Code128"@,
        BarcodeType::Code39 => "Code39"@,
        BarcodeType::EAN13 => "EAN13"@,
        BarcodeType::EAN8 => "EAN8"@,
        BarcodeType::UpcA => "UpcA"@,
        BarcodeType::UpcE => "UpcE"@,
        BarcodeType::PDF417 => "PDF417"@,
        BarcodeType::DataMatrix => "DataMatrix"@,
    }
}

impl BarcodeType {
    /// The type's name, as in messages.
    pub fn name(&self) -> (r: &'static str)
        ensures
            r@ == barcode_name(*self),
    {
        match self {
            BarcodeType::QRCode => "QRCode",
            BarcodeType::Code128 => "Code128",
            BarcodeType::Code39 => "Code39",
            BarcodeType::EAN13 => "EAN13",
            BarcodeType::EAN8 => "EAN8",
            BarcodeType::UpcA => "UpcA",
            BarcodeType::UpcE => "UpcE",
            BarcodeType::PDF417 => "PDF417",
            BarcodeType::DataMatrix => "DataMatrix",
        }
    }
}

/// Draws a barcode. Only QR codes are drawn; every other type is refused.
pub fn render_barcode(btype: BarcodeType, value: &str) -> (r: Result<Bitmap, HeError>)
    ensures
        btype == BarcodeType::QRCode ==> qr_drawn(encode_utf8(value@), r),
        btype != BarcodeType::QRCode ==> (r matches Err(x) && is_coded(
            x,
            ErrorCode::InvalidBarcodeType,
            "条码类型 "@ + barcode_name(btype) + " 暂未实现，目前仅支持 QRCode"@,
        )),
{
    match btype {
        BarcodeType::QRCode => render_qrcode(value),
        _ => Err(
            HeError::coded(
                ErrorCode::InvalidBarcodeType,
                "条码类型 ".to_owned().concat(btype.name()).concat(" 暂未实现，目前仅支持 QRCode"),
            ),
        ),
    }
}

/// An HTML item as bitmap bytes: nothing is drawn yet, so the bytes are
/// empty.
pub fn render_html_placeholder(html: &str, bounds: Rect) -> (r: Result<Vec<u8>, HeError>)
    ensures
        r matches Ok(v) && v@.len() == 0,
{
    Ok(Vec::new())
}

/// Where an image item's pixels come from.
#[derive(Debug)]
pub enum ImageSource {
    /// Bytes given inline as a base64 data URL.
    Inline(Vec<u8>),
    /// A local file.
    File(String),
}

/// The base64 text of a data URL: what follows the first `;base64,` after
/// a leading `data:`.
pub open spec fn data_url_payload(s: Seq<char>) -> Option<Seq<char>> {
    if has_prefix(s, "data:"@) {
        match first_occurrence(s.skip(5), ";base64,"@) {
            Some(i) => Some(s.skip(5).skip(i + 8)),
            None => None,
        }
    } else {
        None
    }
}

/// The text after the first `;base64,` in `rest`.
fn after_base64_marker(rest: &Vec<char>) -> (r: Option<String>)
    ensures
        match first_occurrence(rest@, ";base64,"@) {
            Some(i) => r matches Some(t) && t@ == rest@.skip(i + 8),
            None => r is None,
        },
{
    match find_chars(rest, ";base64,") {
        Some(i) => {
            assert(";base64,"@.len() == 8) by {
                reveal_strlit(";base64,");
            }
            assert(occurs_at(rest@, ";base64,"@, i as int));
            let n = rest.len();
            assert(i + 8 <= n);
            Some(chars_from(rest, i + 8))
        },
        None => None,
    }
}

/// The characters after a leading `data:`.
fn after_data_prefix(src: &str) -> (r: Option<Vec<char>>)
    ensures
        match r {
            Some(v) => has_prefix(src@, "data:"@) && v@ == src@.skip(5),
            None => !has_prefix(src@, "data:"@),
        },
{
    let v = chars_of(src);
    if !starts_with_chars(&v, "data:") {
        return None;
    }
    assert("data:"@.len() == 5) by {
        reveal_strlit("data:");
    }
    let rest = chars_from(&v, 5);
    Some(chars_of(rest.as_str()))
}

/// The base64 text of a data URL.
pub fn extract_base64(src: &str) -> (r: Option<String>)
    ensures
        match r {
            Some(t) => data_url_payload(src@) == Some(t@),
            None => data_url_payload(src@) is None,
        },
{
    match after_data_prefix(src) {
        Some(rest) => after_base64_marker(&rest),
        None => None,
    }
}

/// Where the pixels of an image item come from: a base64 data URL is
/// decoded, any other text not starting with `http` names a local file,
/// and remote images are refused.
pub open spec fn image_source_spec(src: Seq<char>) -> Result<Result<Seq<u8>, Seq<char>>, (ErrorCode, Seq<char>)> {
    match data_url_payload(src) {
        Some(b64) => match base64_standard_decode(encode_utf8(b64)) {
            Ok(bytes) => Ok(Ok(bytes)),
            Err(e) => Err((ErrorCode::ImageDecodeFailed, "base64 解码失败: "@ + e)),
        },
        None => if !has_prefix(src, "http"@) {
            Ok(Err(src))
        } else {
            Err((ErrorCode::Unknown, "URL 图片下载未实现（v1 仅支持 base64 / 本地路径）"@))
        },
    }
}

/// Finds where an image item's pixels come from.
pub fn image_source(src: &str) -> (r: Result<ImageSource, HeError>)
    ensures
        match image_source_spec(src@) {
            Ok(Ok(bytes)) => r matches Ok(ImageSource::Inline(b)) && b@ == bytes,
            Ok(Err(path)) => r matches Ok(ImageSource::File(f)) && f@ == path,
            Err((c, m)) => r matches Err(e) && is_coded(e, c, m),
        },
{
    match extract_base64(src) {
        Some(b64) => match base64_decode(b64.as_str().as_bytes()) {
            Ok(bytes) => Ok(ImageSource::Inline(bytes)),
            Err(e) => Err(HeError::coded(ErrorCode::ImageDecodeFailed, "base64 解码失败: ".to_owned().concat(e.as_str()))),
        },
        None => {
            let v = chars_of(src);
            if !starts_with_chars(&v, "http") {
                Ok(ImageSource::File(src.to_owned()))
            } else {
                Err(HeError::coded(ErrorCode::Unknown, "URL 图片下载未实现（v1 仅支持 base64 / 本地路径）".to_owned()))
            }
        },
    }
}

/// What the `image` crate reads from a byte string, as RGBA pixels: the
/// width, the height and the pixel bytes (four per pixel, row by row), or
/// the text of its error.
pub uninterp spec fn image_rgba8(bytes: Seq<u8>) -> Result<(u32, u32, Seq<u8>), Seq<char>>;

/// The view of a decoded bitmap.
pub open spec fn bitmap_view(b: Bitmap) -> (u32, u32, Seq<u8>) {
    (b.width, b.height, b.pixels@)
}

/// `ImageReader::new(Cursor::new(bytes)).with_guessed_format()`, then
/// `decode()` and `to_rgba8()`: the image the bytes hold, with its format
/// guessed from the bytes, as RGBA pixels, or the text of the error. The
/// result is named. `to_rgba8` builds an `RgbaImage`, whose buffer holds
/// exactly four bytes per pixel. The guess also consults format hooks that
/// a program may register with the `image` crate; neither this library
/// nor its host registers any. Whether a decoder can panic on some
/// malformed input is not stated.
#[verifier::external_body]
fn decode_rgba8(bytes: Vec<u8>) -> (r: Result<Bitmap, String>)
    ensures
        match r {
            Ok(b) => image_rgba8(bytes@) == Ok::<(u32, u32, Seq<u8>), Seq<char>>(bitmap_view(b))
                && b.pixels@.len() == b.width * b.height * 4,
            Err(e) => image_rgba8(bytes@) == Err::<(u32, u32, Seq<u8>), Seq<char>>(e@),
        },
{
    match image::ImageReader::new(std::io::Cursor::new(bytes)).with_guessed_format() {
        Ok(reader) => match reader.decode() {
            Ok(img) => {
                let rgba = img.to_rgba8();
                Ok(Bitmap { width: rgba.width(), height: rgba.height(), pixels: rgba.into_raw() })
            },
            Err(e) => Err(e.to_string()),
        },
        Err(e) => Err(e.to_string()),
    }
}

/// Decodes image bytes into RGBA pixels; a failure is reported as
/// `ImageDecodeFailed` with the decoder's text.
pub fn decode_image_data(bytes: Vec<u8>) -> (r: Result<Bitmap, HeError>)
    ensures
        match image_rgba8(bytes@) {
            Ok(t) => r matches Ok(b) && bitmap_view(b) == t && b.pixels@.len() == b.width * b.height * 4,
            Err(t) => r matches Err(e) && is_coded(e, ErrorCode::ImageDecodeFailed, t),
        },
{
    match decode_rgba8(bytes) {
        Ok(b) => Ok(b),
        Err(e) => Err(HeError::coded(ErrorCode::ImageDecodeFailed, e)),
    }
}

/// Decodes the PNG bytes a PDF page was rendered to into RGBA pixels; a
/// failure is reported as `PdfDecodeFailed` with the decoder's text.
pub fn decode_page_png(bytes: Vec<u8>) -> (r: Result<Bitmap, HeError>)
    ensures
        match image_rgba8(bytes@) {
            Ok(t) => r matches Ok(b) && bitmap_view(b) == t && b.pixels@.len() == b.width * b.height * 4,
            Err(t) => r matches Err(e) && is_coded(e, ErrorCode::PdfDecodeFailed, t),
        },
{
    match decode_rgba8(bytes) {
        Ok(b) => Ok(b),
        Err(e) => Err(HeError::coded(ErrorCode::PdfDecodeFailed, e)),
    }
}

/// The largest PDF document accepted: 100 MiB.
pub const MAX_PDF_BYTES: usize = 104857600;

/// The PDF bytes of a data URL, or why there are none; `Ok(None)` for a
/// text that is a file path or plain base64 (the host tells which).
pub open spec fn pdf_source_spec(content: Seq<char>) -> Result<Option<Seq<u8>>, (ErrorCode, Seq<char>)> {
    if has_prefix(content, "data:"@) {
        match first_occurrence(content.skip(5), ";base64,"@) {
            None => Err((ErrorCode::PdfDecodeFailed, "PDF data URL is not base64 encoded"@)),
            Some(i) => match base64_standard_decode(encode_utf8(content.skip(5).skip(i + 8))) {
                Ok(b) => Ok(Some(b)),
                Err(e) => Err((ErrorCode::PdfDecodeFailed, "PDF base64 decode failed: "@ + e)),
            },
        }
    } else if has_prefix(content, "http://"@) || has_prefix(content, "https://"@) {
        Err((ErrorCode::PdfDecodeFailed, "Remote PDF URLs are not supported; upload the PDF as a data URL"@))
    } else {
        Ok(None)
    }
}

/// Reads the content of a PDF item as far as that needs no file: a data URL
/// is decoded, a remote URL is refused.
pub fn pdf_source(content: &str) -> (r: Result<Option<Vec<u8>>, HeError>)
    ensures
        match pdf_source_spec(content@) {
            Ok(Some(b)) => r matches Ok(Some(v)) && v@ == b,
            Ok(None) => r matches Ok(None),
            Err((c, m)) => r matches Err(e) && is_coded(e, c, m),
        },
{
    let v = chars_of(content);
    if let Some(rest) = after_data_prefix(content) {
        match after_base64_marker(&rest) {
            None => Err(HeError::coded(ErrorCode::PdfDecodeFailed, "PDF data URL is not base64 encoded".to_owned())),
            Some(b64) => match base64_decode(b64.as_str().as_bytes()) {
                Ok(b) => Ok(Some(b)),
                Err(e) => Err(HeError::coded(ErrorCode::PdfDecodeFailed, "PDF base64 decode failed: ".to_owned().concat(e.as_str()))),
            },
        }
    } else if starts_with_chars(&v, "http://") || starts_with_chars(&v, "https://") {
        Err(HeError::coded(ErrorCode::PdfDecodeFailed, "Remote PDF URLs are not supported; upload the PDF as a data URL".to_owned()))
    } else {
        Ok(None)
    }
}

/// Reads the content of a PDF item that is neither a data URL nor a file as
/// plain base64.
pub fn pdf_from_base64(content: &str) -> (r: Result<Vec<u8>, HeError>)
    ensures
        match base64_standard_decode(encode_utf8(content@)) {
            Ok(b) => r matches Ok(v) && v@ == b,
            Err(e) => r matches Err(x) && is_coded(x, ErrorCode::PdfDecodeFailed, "Invalid PDF content: "@ + e),
        },
{
    match base64_decode(content.as_bytes()) {
        Ok(b) => Ok(b),
        Err(e) => Err(HeError::coded(ErrorCode::PdfDecodeFailed, "Invalid PDF content: ".to_owned().concat(e.as_str()))),
    }
}

/// Whether bytes begin with the PDF signature `%PDF-`.
pub open spec fn has_pdf_signature(b: Seq<u8>) -> bool {
    b.len() >= 5 && b[0] == 0x25 && b[1] == 0x50 && b[2] == 0x44 && b[3] == 0x46 && b[4] == 0x2d
}

/// Accepts the bytes of a PDF document: at most `MAX_PDF_BYTES`, and
/// starting with `%PDF-`.
pub fn check_pdf(bytes: Vec<u8>) -> (r: Result<Vec<u8>, HeError>)
    ensures
        bytes@.len() > MAX_PDF_BYTES ==> (r matches Err(e) && is_coded(e, ErrorCode::DataTooLarge, code_message(ErrorCode::DataTooLarge))),
        bytes@.len() <= MAX_PDF_BYTES && !has_pdf_signature(bytes@) ==> (r matches Err(e) && is_coded(
            e,
            ErrorCode::PdfDecodeFailed,
            "Content is not a PDF document"@,
        )),
        bytes@.len() <= MAX_PDF_BYTES && has_pdf_signature(bytes@) ==> (r matches Ok(v) && v@ == bytes@),
{
    if bytes.len() > MAX_PDF_BYTES {
        return Err(HeError::code(ErrorCode::DataTooLarge));
    }
    if bytes.len() < 5 || bytes[0] != 0x25 || bytes[1] != 0x50 || bytes[2] != 0x44 || bytes[3] != 0x46
        || bytes[4] != 0x2d {
        return Err(HeError::coded(ErrorCode::PdfDecodeFailed, "Content is not a PDF document".to_owned()));
    }
    Ok(bytes)
}

/// The byte at offset `i` of RGBA pixels rewritten as BGRA.
pub open spec fn bgra_byte(px: Seq<u8>, i: int) -> u8 {
    let b = (i / 4) * 4;
    let c = i % 4;
    if c == 0 {
        px[b + 2]
    } else if c == 2 {
        px[b]
    } else {
        px[b + c]
    }
}

/// RGBA pixels as BGRA, as GDI takes them; a last incomplete pixel is
/// dropped.
pub fn rgba_to_bgra(px: &[u8]) -> (r: Vec<u8>)
    ensures
        r@ == Seq::new(((px@.len() / 4) * 4) as nat, |i: int| bgra_byte(px@, i)),
{
    let n = px.len() / 4;
    let mut out: Vec<u8> = Vec::new();
    for k in 0..n
        invariant
            n == px@.len() / 4,
            out@.len() == k * 4,
            forall|i: int| 0 <= i < out@.len() ==> out@[i] == bgra_byte(px@, i),
    {
        assert(k * 4 + 3 < px@.len()) by (nonlinear_arith)
            requires
                k < n,
                n == px@.len() / 4,
        ;
        assert(k * 4 < px.len());
        let b: usize = k * 4;
        proof {
            vstd::arithmetic::div_mod::lemma_fundamental_div_mod_converse(b as int, 4, k as int, 0);
            vstd::arithmetic::div_mod::lemma_fundamental_div_mod_converse(b + 1, 4, k as int, 1);
            vstd::arithmetic::div_mod::lemma_fundamental_div_mod_converse(b + 2, 4, k as int, 2);
            vstd::arithmetic::div_mod::lemma_fundamental_div_mod_converse(b + 3, 4, k as int, 3);
        }
        out.push(px[b + 2]);
        out.push(px[b + 1]);
        out.push(px[b]);
        out.push(px[b + 3]);
    }
    assert(out@ =~= Seq::new(((px@.len() / 4) * 4) as nat, |i: int| bgra_byte(px@, i)));
    out
}

/// The longest edge a PDF page is rendered to, in pixels.
pub const MAX_RENDER_EDGE: u32 = 6000;

/// A target edge as a bound: at least 1, at most `MAX_RENDER_EDGE`.
pub open spec fn edge_bound(t: u32) -> int {
    if t < 1 {
        1
    } else if t > MAX_RENDER_EDGE {
        MAX_RENDER_EDGE as int
    } else {
        t as int
    }
}

/// `n / d` rounded to the nearest integer, halves up.
pub open spec fn round_div(n: int, d: int) -> int {
    (2 * n + d) / (2 * d)
}

/// At least 1.
pub open spec fn at_least_one(x: int) -> int {
    if x < 1 {
        1
    } else {
        x
    }
}

/// The size a page of `sw` × `sh` is rendered at to fit `tw` × `th` (each
/// bounded to 1..=`MAX_RENDER_EDGE`) with its aspect ratio kept: both
/// sides are scaled by the smaller of the two ratios and rounded, and are at
/// least 1.
pub open spec fn fit_size_spec(sw: u32, sh: u32, tw: u32, th: u32) -> (int, int) {
    let mw = edge_bound(tw);
    let mh = edge_bound(th);
    if sw == 0 && sh == 0 {
        (1, 1)
    } else if mw * sh <= mh * sw {
        (at_least_one(round_div(sw * mw, sw as int)), at_least_one(round_div(sh * mw, sw as int)))
    } else {
        (at_least_one(round_div(sw * mh, sh as int)), at_least_one(round_div(sh * mh, sh as int)))
    }
}

/// `n / d` rounded, halves up, for `d > 0`.
fn round_div_u64(n: u64, d: u64) -> (r: u64)
    requires
        d > 0,
        n <= 0x1_0000_0000_0000,
        d <= 0x1_0000_0000,
    ensures
        r == round_div(n as int, d as int),
{
    (2 * n + d) / (2 * d)
}

/// The size to render a page of `source_width` × `source_height` at so that
/// it fits `target_width` × `target_height` with its aspect ratio kept.
pub fn fit_size(source_width: u32, source_height: u32, target_width: u32, target_height: u32) -> (r: (u32, u32))
    ensures
        (r.0 as int, r.1 as int) == fit_size_spec(source_width, source_height, target_width, target_height),
        1 <= r.0 <= MAX_RENDER_EDGE,
        1 <= r.1 <= MAX_RENDER_EDGE,
{
    let mw: u64 = if target_width < 1 { 1 } else if target_width > MAX_RENDER_EDGE { MAX_RENDER_EDGE as u64 } else { target_width as u64 };
    let mh: u64 = if target_height < 1 { 1 } else if target_height > MAX_RENDER_EDGE { MAX_RENDER_EDGE as u64 } else { target_height as u64 };
    let sw = source_width as u64;
    let sh = source_height as u64;
    if sw == 0 && sh == 0 {
        return (1, 1);
    }
    proof {
        lemma_product_bound(sw as int, mw as int);
        lemma_product_bound(sh as int, mw as int);
        lemma_product_bound(sw as int, mh as int);
        lemma_product_bound(sh as int, mh as int);
    }
    let (w, h) = if mw * sh <= mh * sw {
        proof {
            assert(sw > 0) by (nonlinear_arith)
                requires
                    mw * sh <= mh * sw,
                    mw >= 1,
                    !(sw == 0 && sh == 0),
            ;
            assert(sh * mw <= mh * sw && sw * mw <= mw * sw) by (nonlinear_arith)
                requires
                    mw * sh <= mh * sw,
            ;
            lemma_round_div_le(sh * mw, sw as int, mh as int);
            lemma_round_div_le(sw * mw, sw as int, mw as int);
        }
        (round_div_u64(sw * mw, sw), round_div_u64(sh * mw, sw))
    } else {
        proof {
            assert(sh > 0) by (nonlinear_arith)
                requires
                    mw * sh > mh * sw,
                    mh >= 1,
            ;
            assert(sw * mh <= mw * sh && sh * mh <= mh * sh) by (nonlinear_arith)
                requires
                    mw * sh > mh * sw,
            ;
            lemma_round_div_le(sw * mh, sh as int, mw as int);
            lemma_round_div_le(sh * mh, sh as int, mh as int);
        }
        (round_div_u64(sw * mh, sh), round_div_u64(sh * mh, sh))
    };
    let w: u32 = if w < 1 { 1 } else { w as u32 };
    let h: u32 = if h < 1 { 1 } else { h as u32 };
    (w, h)
}

proof fn lemma_product_bound(a: int, b: int)
    requires
        0 <= a <= 0xffff_ffff,
        0 <= b <= 6000,
    ensures
        0 <= a * b <= 0xffff_ffff * 6000,
{
    assert(0 <= a * b <= 0xffff_ffff * 6000) by (nonlinear_arith)
        requires
            0 <= a <= 0xffff_ffff,
            0 <= b <= 6000,
    ;
}

/// A rounded quotient of a number at most `m * d` is at most `m`.
proof fn lemma_round_div_le(n: int, d: int, m: int)
    requires
        d > 0,
        m >= 0,
        0 <= n <= m * d,
    ensures
        0 <= round_div(n, d) <= m,
{
    assert(m * d == d * m) by (nonlinear_arith);
    assert(2 * d * m == 2 * (d * m)) by (nonlinear_arith);
    assert(2 * n + d <= 2 * d * m + d);
    vstd::arithmetic::div_mod::lemma_div_is_ordered(2 * n + d, 2 * d * m + d, 2 * d);
    assert(2 * d * m + d == m * (2 * d) + d) by (nonlinear_arith);
    vstd::arithmetic::div_mod::lemma_fundamental_div_mod_converse(2 * d * m + d, 2 * d, m, d);
    vstd::arithmetic::div_mod::lemma_div_pos_is_pos(2 * n + d, 2 * d);
}

} // verus!
