//! Page image decoding.
//!
//! A page's bytes are decoded by a format-sniffing decoder: the codec is
//! chosen by inspecting the content — a fixed magic-byte table, never the
//! entry's file extension — and the sniffed format is then handed straight
//! to the built-in decoder for it, so no process-global decoder
//! registration can change the outcome.  The decoded form is an RGBA8
//! pixel buffer with its dimensions.  Decoding is then a pure function of
//! the entry bytes, so repeated decodes of the same page give identical
//! pixels.

use crate::comic::ComicError;
use vstd::prelude::*;

verus! {

/// A decoded raster image: RGBA8 pixels in row-major order.
#[derive(Debug)]
pub struct DecodedImage {
    /// Width in pixels.
    pub width: u32,
    /// Height in pixels.
    pub height: u32,
    /// Row-major RGBA8 samples, four bytes per pixel.
    pub pixels: Vec<u8>,
}

impl DecodedImage {
    /// The pixel buffer holds exactly four bytes per pixel.
    pub open spec fn wf(&self) -> bool {
        self.pixels@.len() == 4 * self.width * self.height
    }
}

/// What decoding yields on the given bytes: the image's width, height and
/// RGBA8 samples, or `None` when the bytes are not a decodable image.
pub uninterp spec fn decoded_of(data: Seq<u8>) -> Option<(nat, nat, Seq<u8>)>;

/// The decode result `r` is the one that [`decoded_of`] fixes for `data`:
/// the decoded image when the bytes decode, and a decode error otherwise.
pub open spec fn decode_result_matches(data: Seq<u8>, r: Result<DecodedImage, ComicError>) -> bool {
    match decoded_of(data) {
        Some(t) => r matches Ok(img) && img.width as nat == t.0 && img.height as nat == t.1
            && img.pixels@ == t.2 && img.wf(),
        None => r matches Err(e) && (e == ComicError::UnsupportedImageFormat || e
            == ComicError::CorruptImageData),
    }
}

/// Decoding the same bytes twice yields identical pixel data.
pub proof fn lemma_decode_idempotent(
    data: Seq<u8>,
    r1: Result<DecodedImage, ComicError>,
    r2: Result<DecodedImage, ComicError>,
)
    requires
        decode_result_matches(data, r1),
        decode_result_matches(data, r2),
    ensures
        r1 is Ok <==> r2 is Ok,
        r1 matches Ok(a) ==> r2 matches Ok(b) && a.width == b.width && a.height == b.height
            && a.pixels@ == b.pixels@,
{
}

/// Relies on image::guess_format, which sniffs the codec from a fixed
/// magic-byte table and consults no hook registry, on
/// image::load_from_memory_with_format, which dispatches straight to the
/// built-in decoder for that format and so also bypasses the crate's
/// process-global decoding hooks, and on DynamicImage::to_rgba8, whose
/// buffer holds exactly width * height RGBA8 pixels.  On this path the
/// result is a function of the bytes alone (for this build's set of
/// codecs), which is what lets [`decoded_of`] name it.  An unrecognized or
/// unavailable codec reports `UnsupportedImageFormat`; any other decode
/// failure reports `CorruptImageData`.
#[verifier::external_body]
pub(crate) fn decode_image(data: &[u8]) -> (r: Result<DecodedImage, ComicError>)
    ensures
        decode_result_matches(data@, r),
        (r is Ok) == (decoded_of(data@) is Some),
{
    let format = match image::guess_format(data) {
        Ok(f) => f,
        Err(_) => return Err(ComicError::UnsupportedImageFormat),
    };
    match image::load_from_memory_with_format(data, format) {
        Ok(img) => {
            let rgba = img.to_rgba8();
            let (width, height) = (rgba.width(), rgba.height());
            Ok(DecodedImage { width, height, pixels: rgba.into_raw() })
        },
        Err(image::ImageError::Unsupported(_)) => Err(ComicError::UnsupportedImageFormat),
        Err(_) => Err(ComicError::CorruptImageData),
    }
}

} // verus!
