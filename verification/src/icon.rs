//! Decoding the embedded PNG application icon into RGBA pixels, for the
//! tray icon and the window icon.
use vstd::prelude::*;

use crate::app::App;

verus! {

/// An image as 8-bit RGBA pixels, row by row.
pub struct RgbaImage {
    pub rgba: Vec<u8>,
    pub width: u32,
    pub height: u32,
}

/// The RGBA pixels, width and height that the `image` crate's PNG decoder
/// reads from the PNG file `bytes`, converted to 8-bit RGBA; `None` where
/// the bytes are no PNG file it can decode.
pub uninterp spec fn png_rgba8(bytes: Seq<u8>) -> Option<(Seq<u8>, u32, u32)>;

/// Decodes a PNG file with `image::load_from_memory_with_format` and
/// `ImageFormat::Png`, then converts it with `DynamicImage::into_rgba8`.
/// With the format given, the decoder is chosen without format guessing
/// and without the hooks that code may register, and it runs with the
/// default limits, so the result depends on the bytes alone. The contract
/// claims only that the result is `png_rgba8` of the bytes; what the
/// pixels are is left to the decoder.
#[verifier::external_body]
fn decode_rgba8(bytes: &[u8]) -> (r: Option<RgbaImage>)
    ensures
        match r {
            Some(img) => png_rgba8(bytes@) == Some((img.rgba@, img.width, img.height)),
            None => png_rgba8(bytes@) is None,
        },
{
    match image::load_from_memory_with_format(bytes, image::ImageFormat::Png) {
        Ok(img) => {
            let img = img.into_rgba8();
            let (width, height) = img.dimensions();
            Some(RgbaImage { rgba: img.into_raw(), width, height })
        },
        Err(_) => None,
    }
}

impl App {
    /// The pixels of the tray icon, decoded from the embedded PNG icon
    /// file; `None` where the bytes are no PNG file.
    pub fn load_tray_icon(bytes: &[u8]) -> (icon: Option<RgbaImage>)
        ensures
            match icon {
                Some(img) => png_rgba8(bytes@) == Some((img.rgba@, img.width, img.height)),
                None => png_rgba8(bytes@) is None,
            },
    {
        decode_rgba8(bytes)
    }
}

} // verus!
