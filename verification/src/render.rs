//! The render step's plan and its raster placement: which produced
//! files are cropped, clipped, copied, re-placed on the high-quality
//! square and archived, and where the bundle is uploaded. The crop and
//! clip themselves run in the external geo-clip tools; their windows
//! are computed here.

use vstd::prelude::*;
use vstd::string::*;
use crate::raster::{Raster, Rgba, transparent, view_overlay, view_filled};
use crate::imaging::{png_pixels_of, png_decode_parts, encode_raster};
use crate::transfer::render_step_url;

verus! {

/// Ground-unit buffer kept around a tile when clipping shapefiles.
pub const SHAPEFILE_CLIP_BUFFER: i64 = 20;

/// Side of the high-quality square rendering, in pixels.
pub const HIGH_QUALITY_TILE_PIXEL_SIZE: u32 = 2362;

/// Largest ground extent side the placement arithmetic accepts.
pub const MAX_GROUND_RANGE: i64 = 1000000;

/// Why placing a rendered image on the high-quality square failed.
#[derive(Clone, Copy, Debug, PartialEq, Eq, Structural)]
pub enum RenderError {
    /// The image bytes did not decode.
    BadImage,
    /// The image does not fit on the square at its computed offset.
    DoesNotFit,
}

/// The window handed to the raster crop tool: upper-left then
/// lower-right ground corner of the tile's cell.
pub fn crop_window(extent: (i64, i64, i64, i64)) -> (w: (i64, i64, i64, i64))
    ensures
        w == (extent.0, extent.3, extent.2, extent.1),
{
    let (min_x, min_y, max_x, max_y) = extent;
    (min_x, max_y, max_x, min_y)
}

/// The window handed to the vector clip tool: the tile's cell grown by
/// the small buffer on every side.
pub fn clip_window(extent: (i64, i64, i64, i64)) -> (w: (i64, i64, i64, i64))
    requires
        i64::MIN + SHAPEFILE_CLIP_BUFFER <= extent.0,
        i64::MIN + SHAPEFILE_CLIP_BUFFER <= extent.1,
        extent.2 <= i64::MAX - SHAPEFILE_CLIP_BUFFER,
        extent.3 <= i64::MAX - SHAPEFILE_CLIP_BUFFER,
    ensures
        w.0 == extent.0 - SHAPEFILE_CLIP_BUFFER,
        w.1 == extent.1 - SHAPEFILE_CLIP_BUFFER,
        w.2 == extent.2 + SHAPEFILE_CLIP_BUFFER,
        w.3 == extent.3 + SHAPEFILE_CLIP_BUFFER,
{
    let (min_x, min_y, max_x, max_y) = extent;
    (
        min_x - SHAPEFILE_CLIP_BUFFER,
        min_y - SHAPEFILE_CLIP_BUFFER,
        max_x + SHAPEFILE_CLIP_BUFFER,
        max_y + SHAPEFILE_CLIP_BUFFER,
    )
}

/// Pixel offset on the high-quality square of a point `delta` ground
/// units into a range of `range` units: the scaled position, rounded to
/// the nearest pixel, half away from zero.
pub open spec fn hq_offset_spec(delta: int, range: int) -> int {
    (2 * (HIGH_QUALITY_TILE_PIXEL_SIZE as int) * delta + range) / (2 * range)
}

/// Computes `hq_offset_spec`: always lands on the square.
pub fn hq_offset(delta: i64, range: i64) -> (r: i64)
    requires
        0 < range <= MAX_GROUND_RANGE,
        0 <= delta <= range,
    ensures
        r == hq_offset_spec(delta as int, range as int),
        0 <= r <= HIGH_QUALITY_TILE_PIXEL_SIZE,
{
    proof {
        let h = HIGH_QUALITY_TILE_PIXEL_SIZE as int;
        assert(0 <= 2 * h * delta <= 2 * h * range) by (nonlinear_arith)
            requires
                0 <= delta <= range,
                h > 0,
        ;
        assert(2 * h * range <= 2 * h * MAX_GROUND_RANGE) by (nonlinear_arith)
            requires
                range <= MAX_GROUND_RANGE,
                h > 0,
        ;
        assert((2 * h * delta + range) / (2 * range) <= h) by (nonlinear_arith)
            requires
                0 < range,
                0 <= delta <= range,
                h > 0,
        ;
        assert((2 * h * delta + range) / (2 * range) >= 0) by (nonlinear_arith)
            requires
                0 < range,
                0 <= 2 * h * delta,
        ;
    }
    let num: i64 = 2 * (HIGH_QUALITY_TILE_PIXEL_SIZE as i64) * delta + range;
    num / (2 * range)
}

/// Places a rendered image on the transparent high-quality square at
/// the pixel offset its real extent gives it relative to the tile's
/// full cell, and encodes the square; smaller-than-cell renderings are
/// padded transparent rather than stretched. Fails exactly when the
/// image does not decode or does not fit at that offset.
pub fn place_on_hq_square(
    image: &Vec<u8>,
    extent: (i64, i64, i64, i64),
    real_min_x: i64,
    real_max_y: i64,
) -> (r: Result<Vec<u8>, RenderError>)
    requires
        extent.0 < extent.2,
        extent.1 < extent.3,
        extent.2 - extent.0 <= MAX_GROUND_RANGE,
        extent.3 - extent.1 <= MAX_GROUND_RANGE,
        extent.0 <= real_min_x <= extent.2,
        extent.1 <= real_max_y <= extent.3,
    ensures
        ({
            let h = HIGH_QUALITY_TILE_PIXEL_SIZE as int;
            let sx = hq_offset_spec(real_min_x - extent.0, extent.2 - extent.0);
            let sy = hq_offset_spec(extent.3 - real_max_y, extent.3 - extent.1);
            match png_pixels_of(image@) {
                Some(v) => {
                    let fits = sx + v.width <= h && sy + v.height <= h;
                    &&& (r is Ok <==> fits)
                    &&& !fits ==> r == Err::<Vec<u8>, RenderError>(RenderError::DoesNotFit)
                    &&& fits ==> png_pixels_of(r.unwrap()@) == Some(
                        view_overlay(view_filled(h, h, transparent()), v, sx, sy),
                    )
                },
                None => r == Err::<Vec<u8>, RenderError>(RenderError::BadImage),
            }
        }),
{
    let hq: u32 = HIGH_QUALITY_TILE_PIXEL_SIZE;
    let (w, h, data) = match png_decode_parts(image) {
        Some(parts) => parts,
        None => {
            return Err(RenderError::BadImage);
        },
    };
    let sx = hq_offset(real_min_x - extent.0, extent.2 - extent.0);
    let sy = hq_offset(extent.3 - real_max_y, extent.3 - extent.1);
    if (w as i64) > (hq as i64) - sx || (h as i64) > (hq as i64) - sy {
        return Err(RenderError::DoesNotFit);
    }
    let img = match Raster::from_parts(w, h, data) {
        Some(rr) => rr,
        None => {
            proof {
                assert(false);
            }
            return Err(RenderError::DoesNotFit);
        },
    };
    let canvas = Raster::new_filled(hq, hq, Rgba { r: 0, g: 0, b: 0, a: 0 });
    let placed = canvas.overlay(&img, sx as u32, sy as u32);
    Ok(encode_raster(&placed))
}

/// Whether the rendering's real extent differs from the tile's full
/// cell, so its images must be re-placed on the high-quality square
/// instead of copied as they are.
pub fn placement_needed(extent: (i64, i64, i64, i64), actual: (i64, i64, i64, i64)) -> (r: bool)
    ensures
        r == !(actual.0 == extent.0 && actual.1 == extent.1 && actual.2 == extent.2 && actual.3
            == extent.3),
{
    !(actual.0 == extent.0 && actual.1 == extent.1 && actual.2 == extent.2 && actual.3 == extent.3)
}

/// Names and targets of one render step: the produced rasters that are
/// cropped to the tile's cell, the shapefiles clipped with the small
/// buffer, the files copied along, the images re-placed on the
/// high-quality square, the three archives, and the batched upload.
pub struct RenderPlan {
    /// The tile's cached dataset directory.
    pub lidar_dir: String,
    /// The directory the processing engine fills.
    pub output_dir: String,
    /// Cropped rasters are collected here, under the output directory.
    pub rasters_subdir: String,
    /// Clipped shapefiles are collected here, under the output directory.
    pub shapefiles_subdir: String,
    /// Final images are collected here, under the output directory.
    pub pngs_subdir: String,
    /// Raster crop jobs: produced file to cropped file.
    pub crops: Vec<(String, String)>,
    /// Files copied from the cached dataset into the rasters directory.
    pub copies: Vec<String>,
    /// Shapefile clip jobs: produced file to clipped file.
    pub clips: Vec<(String, String)>,
    /// Images placed on the high-quality square, or copied as they are.
    pub pngs: Vec<String>,
    /// Name of the cropped-rasters archive.
    pub rasters_archive_name: String,
    /// Name of the clipped-shapefiles archive.
    pub shapefiles_archive_name: String,
    /// Name of the final-images archive.
    pub pngs_archive_name: String,
    /// Where the bundle is uploaded.
    pub upload_url: String,
    /// The four parts of the batched upload: file name, form field,
    /// file under the output directory, content type.
    pub uploads: Vec<(String, String, String, String)>,
}

/// Lays out one render step for a tile.
pub fn render_plan(tile_id: &str, base_api_url: &str) -> (p: RenderPlan)
    ensures
        p.lidar_dir@ == "lidar-step/"@ + tile_id@,
        p.output_dir@ == "render-step/"@ + tile_id@,
        p.rasters_subdir@ == "rasters"@,
        p.shapefiles_subdir@ == "shapefiles"@,
        p.pngs_subdir@ == "pngs"@,
        p.crops@.len() == 5,
        p.crops@[0].0@ == "dem-with-buffer.tif"@ && p.crops@[0].1@ == "dem.tif"@,
        p.crops@[1].0@ == "dem-low-resolution-with-buffer.tif"@ && p.crops@[1].1@
            == "dem-low-resolution.tif"@,
        p.crops@[2].0@ == "high-vegetation-with-buffer.tif"@ && p.crops@[2].1@
            == "high-vegetation.tif"@,
        p.crops@[3].0@ == "medium-vegetation-with-buffer.tif"@ && p.crops@[3].1@
            == "medium-vegetation.tif"@,
        p.crops@[4].0@ == "slopes.tif"@ && p.crops@[4].1@ == "slopes.tif"@,
        p.copies@.len() == 2,
        p.copies@[0]@ == "extent.txt"@,
        p.copies@[1]@ == "pipeline.json"@,
        p.clips@.len() == 5,
        p.clips@[0].0@ == "shapes/lines.shp"@ && p.clips@[0].1@ == "vectors/lines.shp"@,
        p.clips@[1].0@ == "shapes/multipolygons.shp"@ && p.clips@[1].1@
            == "vectors/multipolygons.shp"@,
        p.clips@[2].0@ == "contours/contours.shp"@ && p.clips@[2].1@ == "contours/contours.shp"@,
        p.clips@[3].0@ == "contours-raw/contours-raw.shp"@ && p.clips@[3].1@
            == "contours-raw/contours-raw.shp"@,
        p.clips@[4].0@ == "formlines/formlines.shp"@ && p.clips@[4].1@ == "formlines/formlines.shp"@,
        p.pngs@.len() == 3,
        p.pngs@[0]@ == "cliffs.png"@,
        p.pngs@[1]@ == "contours.png"@,
        p.pngs@[2]@ == "vegetation.png"@,
        p.rasters_archive_name@ == "rasters_"@ + tile_id@ + ".tar.xz"@,
        p.shapefiles_archive_name@ == "shapefiles_"@ + tile_id@ + ".tar.xz"@,
        p.pngs_archive_name@ == "pngs_"@ + tile_id@ + ".tar.xz"@,
        p.upload_url@ == base_api_url@ + "/api/map-generation/render-steps/"@ + tile_id@,
        p.uploads@.len() == 4,
        p.uploads@[0].0@ == "rasters_"@ + tile_id@ + ".tar.xz"@ && p.uploads@[0].1@ == "rasters"@
            && p.uploads@[0].2@ == "rasters_"@ + tile_id@ + ".tar.xz"@ && p.uploads@[0].3@
            == "application/x-bzip2"@,
        p.uploads@[1].0@ == "shapefiles_"@ + tile_id@ + ".tar.xz"@ && p.uploads@[1].1@
            == "shapefiles"@ && p.uploads@[1].2@ == "shapefiles_"@ + tile_id@ + ".tar.xz"@
            && p.uploads@[1].3@ == "application/x-bzip2"@,
        p.uploads@[2].0@ == "pngs_"@ + tile_id@ + ".tar.xz"@ && p.uploads@[2].1@ == "pngs"@
            && p.uploads@[2].2@ == "pngs_"@ + tile_id@ + ".tar.xz"@ && p.uploads@[2].3@
            == "application/x-bzip2"@,
        p.uploads@[3].0@ == "full-map.png"@ && p.uploads@[3].1@ == "full-map"@ && p.uploads@[3].2@
            == "full-map.png"@ && p.uploads@[3].3@ == "image/png"@,
{
    let mut lidar_dir = String::from_str("lidar-step/");
    lidar_dir.append(tile_id);
    let mut output_dir = String::from_str("render-step/");
    output_dir.append(tile_id);
    let mut crops: Vec<(String, String)> = Vec::new();
    crops.push((String::from_str("dem-with-buffer.tif"), String::from_str("dem.tif")));
    crops.push(
        (
            String::from_str("dem-low-resolution-with-buffer.tif"),
            String::from_str("dem-low-resolution.tif"),
        ),
    );
    crops.push(
        (
            String::from_str("high-vegetation-with-buffer.tif"),
            String::from_str("high-vegetation.tif"),
        ),
    );
    crops.push(
        (
            String::from_str("medium-vegetation-with-buffer.tif"),
            String::from_str("medium-vegetation.tif"),
        ),
    );
    crops.push((String::from_str("slopes.tif"), String::from_str("slopes.tif")));
    let mut copies: Vec<String> = Vec::new();
    copies.push(String::from_str("extent.txt"));
    copies.push(String::from_str("pipeline.json"));
    let mut clips: Vec<(String, String)> = Vec::new();
    clips.push((String::from_str("shapes/lines.shp"), String::from_str("vectors/lines.shp")));
    clips.push(
        (
            String::from_str("shapes/multipolygons.shp"),
            String::from_str("vectors/multipolygons.shp"),
        ),
    );
    clips.push(
        (String::from_str("contours/contours.shp"), String::from_str("contours/contours.shp")),
    );
    clips.push(
        (
            String::from_str("contours-raw/contours-raw.shp"),
            String::from_str("contours-raw/contours-raw.shp"),
        ),
    );
    clips.push(
        (String::from_str("formlines/formlines.shp"), String::from_str("formlines/formlines.shp")),
    );
    let mut pngs: Vec<String> = Vec::new();
    pngs.push(String::from_str("cliffs.png"));
    pngs.push(String::from_str("contours.png"));
    pngs.push(String::from_str("vegetation.png"));
    let mut rasters_archive_name = String::from_str("rasters_");
    rasters_archive_name.append(tile_id);
    rasters_archive_name.append(".tar.xz");
    let mut shapefiles_archive_name = String::from_str("shapefiles_");
    shapefiles_archive_name.append(tile_id);
    shapefiles_archive_name.append(".tar.xz");
    let mut pngs_archive_name = String::from_str("pngs_");
    pngs_archive_name.append(tile_id);
    pngs_archive_name.append(".tar.xz");
    let upload_url = render_step_url(base_api_url, tile_id);
    let mut uploads: Vec<(String, String, String, String)> = Vec::new();
    uploads.push(
        (
            rasters_archive_name.clone(),
            String::from_str("rasters"),
            rasters_archive_name.clone(),
            String::from_str("application/x-bzip2"),
        ),
    );
    uploads.push(
        (
            shapefiles_archive_name.clone(),
            String::from_str("shapefiles"),
            shapefiles_archive_name.clone(),
            String::from_str("application/x-bzip2"),
        ),
    );
    uploads.push(
        (
            pngs_archive_name.clone(),
            String::from_str("pngs"),
            pngs_archive_name.clone(),
            String::from_str("application/x-bzip2"),
        ),
    );
    uploads.push(
        (
            String::from_str("full-map.png"),
            String::from_str("full-map"),
            String::from_str("full-map.png"),
            String::from_str("image/png"),
        ),
    );
    RenderPlan {
        lidar_dir,
        output_dir,
        rasters_subdir: String::from_str("rasters"),
        shapefiles_subdir: String::from_str("shapefiles"),
        pngs_subdir: String::from_str("pngs"),
        crops,
        copies,
        clips,
        pngs,
        rasters_archive_name,
        shapefiles_archive_name,
        pngs_archive_name,
        upload_url,
        uploads,
    }
}

} // verus!
