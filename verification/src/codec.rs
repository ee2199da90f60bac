//! Trusted boundary to the byte-level codecs the library relies on: PNG
//! encoding/decoding, SHA-1 digests, base64. Each outside call sits behind
//! one wrapper whose contract names or states its result; everything that
//! follows the calls is verified against those contracts.

use vstd::prelude::*;

verus! {

/// The PNG encoding of an RGB (three bytes per pixel, row-major) image.
/// Named only: the byte stream depends on the pixel data and dimensions
/// alone.
pub uninterp spec fn png_of(pixels: Seq<u8>, width: u32, height: u32) -> Seq<u8>;

/// What a byte stream decodes to when read as an RGBA PNG: the raw
/// four-bytes-per-pixel data and the dimensions, or nothing when the bytes
/// are not such an image. Named only: decoding depends on the bytes alone.
pub uninterp spec fn png_rgba_of(bytes: Seq<u8>) -> Option<(Seq<u8>, u32, u32)>;

/// The 20-byte SHA-1 digest of a byte string. Named only: the digest
/// depends on the input alone.
pub uninterp spec fn sha1_of(bytes: Seq<u8>) -> Seq<u8>;

/// The URL-safe, unpadded base64 rendering of a byte string. Named only.
pub uninterp spec fn b64url_of(bytes: Seq<u8>) -> Seq<char>;

/// What a string decodes to under standard base64, or nothing when it is
/// not valid base64. Named only.
pub uninterp spec fn b64_decode_of(s: Seq<char>) -> Option<Seq<u8>>;

/// Relies on image's `PngEncoder::encode` with `ColorType::Rgb8`: encodes
/// the given RGB buffer as a PNG, a pure function of buffer and dimensions.
/// With RGB8 data of exactly `3 * width * height` bytes, nonzero
/// dimensions, and a `Vec` as the writer (whose `io::Write` cannot fail),
/// the encoder's error paths (header validation, size check, writer
/// errors) are unreachable, so the call succeeds.
#[verifier::external_body]
pub(crate) fn encode_png(pixels: &Vec<u8>, width: u32, height: u32) -> (r: Result<Vec<u8>, ()>)
    requires
        pixels@.len() == 3 * width * height,
        1 <= width,
        1 <= height,
    ensures
        r is Ok,
        r matches Ok(b) ==> b@ == png_of(pixels@, width, height),
{
    let mut bytes = Vec::new();
    let encoder = image::codecs::png::PngEncoder::new(&mut bytes);
    match encoder.encode(pixels.as_slice(), width, height, image::ColorType::Rgb8) {
        Ok(()) => Ok(bytes),
        Err(_) => Err(()),
    }
}

/// Relies on image's `io::Reader` with `ImageFormat::Png`: decodes the
/// bytes and, when they form an RGBA8 image, hands out its raw buffer and
/// dimensions (`RgbaImage::into_raw` yields `width * height * 4` bytes).
/// `Err(false)` is a decode failure, `Err(true)` a non-RGBA8 image.
#[verifier::external_body]
pub(crate) fn decode_png_rgba(bytes: &Vec<u8>) -> (r: Result<(Vec<u8>, u32, u32), bool>)
    ensures
        match r {
            Ok(decoded) => {
                &&& png_rgba_of(bytes@) == Some((decoded.0@, decoded.1, decoded.2))
                &&& decoded.0@.len() == 4 * decoded.1 * decoded.2
            },
            Err(_) => png_rgba_of(bytes@) is None,
        },
{
    let cursor = std::io::Cursor::new(bytes.as_slice());
    let reader = image::io::Reader::with_format(cursor, image::ImageFormat::Png);
    match reader.decode() {
        Ok(image::DynamicImage::ImageRgba8(image)) => {
            let (width, height) = image.dimensions();
            Ok((image.into_raw(), width, height))
        },
        Ok(_) => Err(true),
        Err(_) => Err(false),
    }
}

/// Relies on sha1's `Sha1` (`update` then `digest`): the 20-byte SHA-1
/// digest of the input.
#[verifier::external_body]
pub(crate) fn sha1_digest(bytes: &Vec<u8>) -> (r: Vec<u8>)
    ensures
        r@ == sha1_of(bytes@),
        r@.len() == 20,
{
    let mut hasher = sha1::Sha1::new();
    hasher.update(bytes.as_slice());
    hasher.digest().bytes().to_vec()
}

/// Relies on base64's `encode_config` with `URL_SAFE_NO_PAD`.
#[verifier::external_body]
pub(crate) fn base64_url_encode(bytes: &Vec<u8>) -> (r: String)
    ensures
        r@ == b64url_of(bytes@),
{
    base64::encode_config(bytes.as_slice(), base64::URL_SAFE_NO_PAD)
}

/// Relies on base64's `decode_config` with the `STANDARD` alphabet.
#[verifier::external_body]
pub(crate) fn base64_decode(input: &String) -> (r: Option<Vec<u8>>)
    ensures
        match r {
            Some(b) => b64_decode_of(input@) == Some(b@),
            None => b64_decode_of(input@) is None,
        },
{
    base64::decode_config(input.as_str(), base64::STANDARD).ok()
}

} // verus!
