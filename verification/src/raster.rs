//! Decoding, shrinking and re-encoding images with the `image` crate. The
//! pixels of an image are opaque here; what is known of an image is where
//! it came from, and the `image` crate's results are named over that.

use vstd::prelude::*;

verus! {

/// `image::DynamicImage`.
#[verifier::external_type_specification]
#[verifier::external_body]
pub struct ExDynamicImage(image::DynamicImage);

/// The encodings this library reads and writes.
#[derive(Debug, PartialEq, Eq, Clone, Copy)]
pub enum RasterFormat {
    Png,
    Bmp,
}

/// Where an image came from: the bytes it was decoded from in a given
/// format, the bytes it was decoded from with the format guessed, or the
/// image it was shrunk from and the box it was fitted into.
pub enum RasterOrigin {
    Decoded { bytes: Seq<u8>, format: RasterFormat },
    Guessed { bytes: Seq<u8> },
    Thumbnail { source: Box<RasterOrigin>, width: u32, height: u32 },
}

/// A decoded image of the `image` crate, with where it came from.
pub struct Raster {
    image: image::DynamicImage,
    origin: Ghost<RasterOrigin>,
}

impl View for Raster {
    type V = RasterOrigin;

    closed spec fn view(&self) -> RasterOrigin {
        self.origin@
    }
}

/// The width `DynamicImage::width` reports for the image from `img`.
pub uninterp spec fn raster_width(img: RasterOrigin) -> u32;

/// The height `DynamicImage::height` reports for the image from `img`.
pub uninterp spec fn raster_height(img: RasterOrigin) -> u32;

/// What `DynamicImage::write_to` writes for the image from `img` in
/// `format`: the encoded bytes, or the message of its error.
pub uninterp spec fn raster_encoding(img: RasterOrigin, format: RasterFormat) -> Result<Seq<u8>, Seq<char>>;

/// What `image::load_from_memory` makes of `bytes`: `None` when it decodes
/// them, else the message of the error it reports.
pub uninterp spec fn image_load_outcome(bytes: Seq<u8>) -> Option<Seq<char>>;

/// Whether `image::load_from_memory_with_format` decodes `bytes` as an
/// image of `format`.
pub uninterp spec fn image_decodes_as(bytes: Seq<u8>, format: RasterFormat) -> bool;

/// `image::load_from_memory_with_format`: decodes `bytes` in the given
/// format; `None` when they are not a valid image of that format.
#[verifier::external_body]
pub(crate) fn decode_as(bytes: &[u8], format: RasterFormat) -> (res: Option<Raster>)
    ensures
        res is Some <==> image_decodes_as(bytes@, format),
        res matches Some(r) ==> r@ == (RasterOrigin::Decoded { bytes: bytes@, format }),
{
    let f = match format {
        RasterFormat::Png => image::ImageFormat::Png,
        RasterFormat::Bmp => image::ImageFormat::Bmp,
    };
    match image::load_from_memory_with_format(bytes, f) {
        Ok(img) => Some(Raster { image: img, origin: Ghost(RasterOrigin::Decoded { bytes: bytes@, format }) }),
        Err(_) => None,
    }
}

/// `image::load_from_memory`: decodes `bytes`, guessing the format from
/// their first bytes; the error becomes its message.
#[verifier::external_body]
pub(crate) fn decode_guessing(bytes: &[u8]) -> (res: Result<Raster, String>)
    ensures
        res is Ok <==> image_load_outcome(bytes@) is None,
        res matches Err(m) ==> image_load_outcome(bytes@) == Some(m@),
        res matches Ok(r) ==> r@ == (RasterOrigin::Guessed { bytes: bytes@ }),
{
    match image::load_from_memory(bytes) {
        Ok(img) => Ok(Raster { image: img, origin: Ghost(RasterOrigin::Guessed { bytes: bytes@ }) }),
        Err(e) => Err(e.to_string()),
    }
}

/// `DynamicImage::width`.
#[verifier::external_body]
pub(crate) fn image_width(img: &Raster) -> (res: u32)
    ensures
        res == raster_width(img@),
{
    img.image.width()
}

/// `DynamicImage::height`.
#[verifier::external_body]
pub(crate) fn image_height(img: &Raster) -> (res: u32)
    ensures
        res == raster_height(img@),
{
    img.image.height()
}

/// Whether a `w2` by `h2` image is a `w` by `h` image scaled into a `bw`
/// by `bh` box keeping its aspect ratio up to rounding: one side fills the
/// box, and the other is within one pixel of its exact proportion.
pub open spec fn fits_keeping_aspect(w: int, h: int, bw: int, bh: int, w2: int, h2: int) -> bool {
    ||| w2 == bw && -w <= h2 * w - h * bw <= w
    ||| h2 == bh && -h <= w2 * h - w * bh <= h
}

/// `DynamicImage::thumbnail`: the image scaled, keeping its aspect ratio,
/// to fit in `width` by `height`; each side of the result is at least one
/// pixel and (for a box side of at least one) no longer than the box's,
/// and one side fills the box while the other keeps the proportion within
/// one pixel.
#[verifier::external_body]
pub(crate) fn thumbnail(img: &Raster, width: u32, height: u32) -> (res: Raster)
    ensures
        res@ == (RasterOrigin::Thumbnail { source: Box::new(img@), width, height }),
        1 <= raster_width(res@),
        width >= 1 ==> raster_width(res@) <= width,
        1 <= raster_height(res@),
        height >= 1 ==> raster_height(res@) <= height,
        raster_width(img@) >= 1 && raster_height(img@) >= 1 && width >= 1 && height >= 1 ==> fits_keeping_aspect(
            raster_width(img@) as int,
            raster_height(img@) as int,
            width as int,
            height as int,
            raster_width(res@) as int,
            raster_height(res@) as int,
        ),
{
    Raster {
        image: img.image.thumbnail(width, height),
        origin: Ghost(RasterOrigin::Thumbnail { source: Box::new(img@), width, height }),
    }
}

/// `DynamicImage::write_to` into memory: the encoded bytes, or the message
/// of the error.
#[verifier::external_body]
pub(crate) fn encode_as(img: &Raster, format: RasterFormat) -> (res: Result<Vec<u8>, String>)
    ensures
        match res {
            Ok(b) => raster_encoding(img@, format) == Ok::<Seq<u8>, Seq<char>>(b@),
            Err(m) => raster_encoding(img@, format) == Err::<Seq<u8>, Seq<char>>(m@),
        },
{
    let f = match format {
        RasterFormat::Png => image::ImageFormat::Png,
        RasterFormat::Bmp => image::ImageFormat::Bmp,
    };
    let mut bytes: Vec<u8> = Vec::new();
    match img.image.write_to(&mut std::io::Cursor::new(&mut bytes), f) {
        Ok(()) => Ok(bytes),
        Err(e) => Err(e.to_string()),
    }
}

} // verus!
