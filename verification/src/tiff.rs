//! Decoded TIFF images, as the macOS pasteboard holds images.  A decoded
//! image is seen through the TIFF bytes it was decoded from: decoding is a
//! function of those bytes, so they determine the image.

use vstd::prelude::*;

verus! {

#[verifier::external_type_specification]
#[verifier::external_body]
pub struct ExDynamicImage(image::DynamicImage);

/// Whether `image::load_from_memory_with_format(data, ImageFormat::Tiff)`
/// succeeds on `data`.
pub uninterp spec fn tiff_decodes(data: Seq<u8>) -> bool;

/// The PNG file that `DynamicImage::write_to` with `ImageFormat::Png`
/// writes for the image decoded from the TIFF bytes `tiff`, or `None` when
/// writing fails.
pub uninterp spec fn tiff_png(tiff: Seq<u8>) -> Option<Seq<u8>>;

/// An image decoded from TIFF bytes.  Only [`load_tiff`] makes one.
pub struct TiffImage {
    image: image::DynamicImage,
    source: Ghost<Seq<u8>>,
}

impl View for TiffImage {
    type V = Seq<u8>;

    /// The TIFF bytes the image was decoded from.
    closed spec fn view(&self) -> Seq<u8> {
        self.source@
    }
}

/// `image::load_from_memory_with_format` with `ImageFormat::Tiff`: succeeds
/// exactly when the data decodes as TIFF, which `tiff_decodes` names; the
/// image is seen through the bytes it came from.
#[verifier::external_body]
pub(crate) fn load_tiff(data: &[u8]) -> (r: Result<TiffImage, image::ImageError>)
    ensures
        r is Ok <==> tiff_decodes(data@),
        r matches Ok(img) ==> img@ == data@,
{
    let image = image::load_from_memory_with_format(data, image::ImageFormat::Tiff)?;
    Ok(TiffImage { image, source: Ghost(data@) })
}

/// `DynamicImage::write_to` with `ImageFormat::Png` into a byte buffer: the
/// PNG file `tiff_png` names for the image's TIFF bytes, and an error
/// exactly when it names none.
#[verifier::external_body]
pub(crate) fn write_png(img: &TiffImage) -> (r: Result<Vec<u8>, image::ImageError>)
    ensures
        match r {
            Ok(png) => tiff_png(img@) == Some(png@),
            Err(_) => tiff_png(img@) is None,
        },
{
    let mut out: Vec<u8> = Vec::new();
    img.image.write_to(&mut std::io::Cursor::new(&mut out), image::ImageFormat::Png)?;
    Ok(out)
}

} // verus!
