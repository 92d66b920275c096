//! The lidar step's plan: where the fetched point-cloud file lands,
//! where the processing engine writes, what the produced archive is
//! called and where it is sent.

use vstd::prelude::*;
use vstd::string::*;
use crate::transfer::lidar_step_url;

verus! {

/// Paths, names and the upload target of one lidar step.
pub struct LidarPlan {
    /// Where the fetched point-cloud file is written.
    pub laz_path: String,
    /// The directory the processing engine fills for this tile.
    pub output_dir: String,
    /// Name of the compressed archive of that directory.
    pub archive_name: String,
    /// Where that archive is written.
    pub archive_path: String,
    /// Where the archive is uploaded.
    pub upload_url: String,
    /// Content type the archive is uploaded under.
    pub content_type: String,
}

/// Lays out one lidar step for a tile: the point-cloud file under the
/// shared download directory, the engine output under the lidar step
/// directory, the archive beside it, and the tile's lidar-steps
/// endpoint as the upload target.
pub fn lidar_plan(tile_id: &str, base_api_url: &str) -> (p: LidarPlan)
    ensures
        p.laz_path@ == "lidar-files/"@ + tile_id@ + ".laz"@,
        p.output_dir@ == "lidar-step/"@ + tile_id@,
        p.archive_name@ == tile_id@ + ".tar.xz"@,
        p.archive_path@ == "lidar-step/"@ + tile_id@ + ".tar.xz"@,
        p.upload_url@ == base_api_url@ + "/api/map-generation/lidar-steps/"@ + tile_id@,
        p.content_type@ == "application/x-bzip2"@,
{
    let mut laz_path = String::from_str("lidar-files/");
    laz_path.append(tile_id);
    laz_path.append(".laz");
    let mut output_dir = String::from_str("lidar-step/");
    output_dir.append(tile_id);
    let mut archive_name = String::from_str(tile_id);
    archive_name.append(".tar.xz");
    let mut archive_path = String::from_str("lidar-step/");
    archive_path.append(tile_id);
    archive_path.append(".tar.xz");
    let upload_url = lidar_step_url(base_api_url, tile_id);
    let content_type = String::from_str("application/x-bzip2");
    LidarPlan { laz_path, output_dir, archive_name, archive_path, upload_url, content_type }
}

} // verus!
