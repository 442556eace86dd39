//! The QR code of an address on the receive screen, as a PNG data URL. The
//! code is the `qrcode` crate's, the picture the `image` crate's PNG encoder's,
//! and the text the `base64` crate's standard encoding.
use vstd::prelude::*;
use base64::Engine;
use crate::text::concat2;

verus! {

#[verifier::external_type_specification]
#[verifier::external_body]
pub struct ExQrCode(qrcode::QrCode);

/// A grayscale picture of the `image` crate (its pixel buffer, whose type Verus
/// does not take because of its `Pixel` bound), held as it is.
#[verifier::external_body]
pub struct QrPicture {
    picture: image::GrayImage,
}

/// The modules of a QR code, row by row, `true` for dark.
pub uninterp spec fn qr_modules(code: qrcode::QrCode) -> Seq<bool>;

/// What `qrcode::QrCode::new` makes of `data`: the modules of the smallest
/// code at error correction level M that holds it, when one does.
pub uninterp spec fn qr_encoding(data: Seq<u8>) -> Option<Seq<bool>>;

/// The gray levels of a grayscale picture, row by row.
pub uninterp spec fn gray_rows(picture: QrPicture) -> Seq<Seq<u8>>;

/// The picture that the `qrcode` renderer draws of a code with modules
/// `modules`, each side at least `min_side` pixels.
pub uninterp spec fn qr_picture(modules: Seq<bool>, min_side: nat) -> Seq<Seq<u8>>;

/// The PNG file that the `image` crate writes of a grayscale picture.
pub uninterp spec fn png_file(rows: Seq<Seq<u8>>) -> Seq<u8>;

/// `qrcode::QrCode::new(text).ok()`. Claims the result is the code
/// `qr_encoding` names for the text's UTF-8 bytes, and that empty data always
/// fits: `encode_auto` only refuses data longer than a version-40 code holds.
#[verifier::external_body]
fn qr_code(text: &str) -> (r: Option<qrcode::QrCode>)
    ensures
        r is None <==> qr_encoding(vstd::utf8::encode_utf8(text@)) is None,
        r matches Some(c) ==> qr_encoding(vstd::utf8::encode_utf8(text@)) == Some(qr_modules(c)),
        text@.len() == 0 ==> r is Some,
{
    qrcode::QrCode::new(text).ok()
}

/// `code.render::<Luma<u8>>().min_dimensions(min_side, min_side).build()`: the
/// code drawn in gray levels, each side at least `min_side` pixels.
#[verifier::external_body]
fn qr_render(code: &qrcode::QrCode, min_side: u32) -> (r: QrPicture)
    ensures
        gray_rows(r) == qr_picture(qr_modules(*code), min_side as nat),
{
    QrPicture { picture: code.render::<image::Luma<u8>>().min_dimensions(min_side, min_side).build() }
}

/// `picture.write_to(&mut Cursor::new(&mut bytes), ImageFormat::Png)` into an
/// empty buffer: the bytes written, which are the PNG file of the picture. As
/// every `Vec`, the buffer holds at most `isize::MAX` bytes.
#[verifier::external_body]
fn png_bytes(picture: &QrPicture) -> (r: Vec<u8>)
    ensures
        r@ == png_file(gray_rows(*picture)),
        r@.len() <= isize::MAX,
{
    let mut bytes: Vec<u8> = Vec::new();
    let _ = picture.picture.write_to(&mut std::io::Cursor::new(&mut bytes), image::ImageFormat::Png);
    bytes
}

/// The character of the standard base64 alphabet for a value below 64.
pub open spec fn base64_char(v: nat) -> char {
    if v < 26 {
        (65 + v) as char
    } else if v < 52 {
        (71 + v) as char
    } else if v < 62 {
        (v - 4) as char
    } else if v == 62 {
        '+'
    } else {
        '/'
    }
}

/// `bytes` in standard base64 with padding: every three bytes become four
/// characters; a last group of one or two bytes is padded with `=`.
pub open spec fn base64_text(bytes: Seq<u8>) -> Seq<char>
    decreases bytes.len(),
{
    if bytes.len() == 0 {
        Seq::empty()
    } else if bytes.len() == 1 {
        let b0 = bytes[0] as nat;
        seq![base64_char(b0 / 4), base64_char((b0 % 4) * 16), '=', '=']
    } else if bytes.len() == 2 {
        let b0 = bytes[0] as nat;
        let b1 = bytes[1] as nat;
        seq![base64_char(b0 / 4), base64_char((b0 % 4) * 16 + b1 / 16), base64_char((b1 % 16) * 4), '=']
    } else {
        let b0 = bytes[0] as nat;
        let b1 = bytes[1] as nat;
        let b2 = bytes[2] as nat;
        seq![
            base64_char(b0 / 4),
            base64_char((b0 % 4) * 16 + b1 / 16),
            base64_char((b1 % 16) * 4 + b2 / 64),
            base64_char(b2 % 64),
        ] + base64_text(bytes.skip(3))
    }
}

/// `base64::engine::general_purpose::STANDARD.encode(bytes)`: standard base64
/// with padding, as RFC 4648 and the crate define it. The crate panics when
/// the encoded length overflows `usize`, which the bound excludes.
#[verifier::external_body]
fn base64_standard(bytes: &[u8]) -> (r: String)
    requires
        bytes@.len() <= isize::MAX,
    ensures
        r@ == base64_text(bytes@),
{
    base64::engine::general_purpose::STANDARD.encode(bytes)
}

/// The side, in pixels, under which the receive screen does not draw a code.
pub const QR_MIN_SIDE: u32 = 180;

/// The modules of the code the receive screen shows for `text`: that of the
/// text when it fits in a QR code, else that of empty data.
pub open spec fn shown_modules(text: Seq<u8>) -> Seq<bool> {
    match qr_encoding(text) {
        Some(m) => m,
        None => qr_encoding(Seq::empty())->0,
    }
}

/// The image the receive screen shows for `text`, as a data URL.
pub open spec fn qr_url_text(text: Seq<u8>) -> Seq<char> {
    "data:image/png;base64,"@ + base64_text(
        png_file(qr_picture(shown_modules(text), QR_MIN_SIDE as nat)),
    )
}

/// The QR code of `text` as a PNG data URL, at least `QR_MIN_SIDE` pixels a
/// side; an empty code when `text` is too long for one.
pub fn qr_data_url(text: &str) -> (r: String)
    ensures
        r@ == qr_url_text(vstd::utf8::encode_utf8(text@)),
{
    let code = match qr_code(text) {
        Some(c) => c,
        None => {
            let empty = "";
            proof {
                reveal_strlit("");
                assert(vstd::utf8::encode_utf8(empty@) =~= Seq::<u8>::empty());
            }
            match qr_code(empty) {
                Some(c) => c,
                None => {
                    proof {
                        assert(false);
                    }
                    return String::new();
                },
            }
        },
    };
    let picture = qr_render(&code, QR_MIN_SIDE);
    let png = png_bytes(&picture);
    let encoded = base64_standard(png.as_slice());
    concat2("data:image/png;base64,", encoded.as_str())
}

} // verus!
