//! PNG decoding and encoding of rasters and the high-quality downsample,
//! through the `image` crate. The crate is trusted only for the facts on
//! the three wrappers below; everything around them is verified.

use vstd::prelude::*;
use crate::raster::{Raster, RasterView, RASTER_MAX_DIM};

verus! {

/// What decoding an encoded image yields, expanded to RGBA: the raster,
/// or nothing when the bytes are not a decodable image. Decoding also
/// refuses images whose decoded buffer would exceed the decoder's
/// default allocation limit, so such bytes count as undecodable.
pub uninterp spec fn png_pixels_of(b: Seq<u8>) -> Option<RasterView>;

/// What the area-quality (Lanczos) downsample of a square raster to a
/// square of side `size` yields, as row-major RGBA bytes.
pub uninterp spec fn lanczos_resize_of(v: RasterView, size: int) -> Seq<u8>;

/// Relies on image::load_from_memory and to_rgba8: decodes an encoded
/// image into its RGBA pixels, whose buffer holds exactly four bytes per
/// pixel, and fails exactly on undecodable bytes — among them images
/// over the decoder's default allocation limit.
#[verifier::external_body]
pub(crate) fn png_decode_parts(bytes: &Vec<u8>) -> (r: Option<(u32, u32, Vec<u8>)>)
    ensures
        match png_pixels_of(bytes@) {
            Some(v) => r is Some && r.unwrap().0 as int == v.width && r.unwrap().1 as int
                == v.height && r.unwrap().2@ == v.data,
            None => r is None,
        },
        r is Some ==> r.unwrap().2@.len() == 4 * ((r.unwrap().0 as int) * (r.unwrap().1 as int)),
{
    match image::load_from_memory(bytes.as_slice()) {
        Ok(img) => {
            let rgba = img.to_rgba8();
            let (w, h) = rgba.dimensions();
            Some((w, h, rgba.into_raw()))
        },
        Err(_) => None,
    }
}

/// Relies on image::RgbaImage::from_raw and write_to: encodes RGBA pixels
/// as a PNG, losslessly, so decoding the output yields the input back.
/// The admitted sides keep the pixel buffer far inside the decoder's
/// default allocation limit, so the output is never refused as too
/// large.
#[verifier::external_body]
fn png_encode_parts(width: u32, height: u32, data: &Vec<u8>) -> (r: Vec<u8>)
    requires
        0 < width <= RASTER_MAX_DIM,
        0 < height <= RASTER_MAX_DIM,
        data@.len() == 4 * ((width as int) * (height as int)),
    ensures
        png_pixels_of(r@) == Some(
            RasterView { width: width as int, height: height as int, data: data@ },
        ),
{
    let img = image::RgbaImage::from_raw(width, height, data.clone()).unwrap();
    let mut buf = std::io::Cursor::new(Vec::new());
    img.write_to(&mut buf, image::ImageFormat::Png).unwrap();
    buf.into_inner()
}

/// Relies on image::DynamicImage::resize with the Lanczos filter: a
/// square image resized into square bounds keeps its aspect ratio, so the
/// result is exactly the requested square.
#[verifier::external_body]
fn resize_square_parts(width: u32, data: &Vec<u8>, new_size: u32) -> (r: Vec<u8>)
    requires
        0 < width <= RASTER_MAX_DIM,
        0 < new_size <= RASTER_MAX_DIM,
        data@.len() == 4 * ((width as int) * (width as int)),
    ensures
        r@ == lanczos_resize_of(
            RasterView { width: width as int, height: width as int, data: data@ },
            new_size as int,
        ),
        r@.len() == 4 * ((new_size as int) * (new_size as int)),
{
    let img = image::RgbaImage::from_raw(width, width, data.clone()).unwrap();
    let out = image::DynamicImage::ImageRgba8(img).resize(
        new_size,
        new_size,
        image::imageops::FilterType::Lanczos3,
    );
    out.to_rgba8().into_raw()
}

/// Decodes an encoded image into a raster. `None` exactly when the bytes
/// do not decode, or the image is larger than the accepted raster sides.
pub fn decode_raster(bytes: &Vec<u8>) -> (r: Option<Raster>)
    ensures
        match png_pixels_of(bytes@) {
            Some(v) => if v.width <= RASTER_MAX_DIM && v.height <= RASTER_MAX_DIM {
                r is Some && r.unwrap()@ == v && r.unwrap()@.wf()
            } else {
                r is None
            },
            None => r is None,
        },
{
    match png_decode_parts(bytes) {
        Some((w, h, data)) => Raster::from_parts(w, h, data),
        None => None,
    }
}

/// Encodes a raster as a PNG; decoding the result yields the raster back.
pub fn encode_raster(r: &Raster) -> (out: Vec<u8>)
    requires
        r@.wf(),
        r@.width > 0,
        r@.height > 0,
    ensures
        png_pixels_of(out@) == Some(r@),
{
    png_encode_parts(r.width(), r.height(), r.as_bytes())
}

/// Downsamples a square raster to the square of side `new_size` with the
/// high-quality filter.
pub fn resize_raster_square(r: &Raster, new_size: u32) -> (out: Raster)
    requires
        r@.wf(),
        r@.width > 0,
        r@.width == r@.height,
        0 < new_size <= RASTER_MAX_DIM,
    ensures
        out@ == (RasterView {
            width: new_size as int,
            height: new_size as int,
            data: lanczos_resize_of(r@, new_size as int),
        }),
        out@.wf(),
{
    let data = resize_square_parts(r.width(), r.as_bytes(), new_size);
    proof {
        assert(RasterView {
            width: r@.width,
            height: r@.width,
            data: r@.data,
        } =~= r@);
    }
    match Raster::from_parts(new_size, new_size, data) {
        Some(out) => out,
        None => {
            proof {
                assert(false);
            }
            Raster::new_filled(new_size, new_size, crate::raster::Rgba { r: 0, g: 0, b: 0, a: 0 })
        },
    }
}

} // verus!
