//! What the transfer client computes: bearer credentials, the endpoint
//! URLs of the remote job source and tile store, and the classification
//! of response status codes.

use vstd::prelude::*;
use vstd::string::*;
use crate::strings::{int_rep, i32_to_dec};
use crate::tiles::{child_x, child_y, children_of};

verus! {

/// The bearer credential: the worker identifier and the token joined by
/// a dot, behind the scheme name.
pub fn auth_header_value(worker_id: &str, token: &str) -> (r: String)
    ensures
        r@ == "Bearer "@ + worker_id@ + "."@ + token@,
{
    let mut s = String::from_str("Bearer ");
    s.append(worker_id);
    s.append(".");
    s.append(token);
    s
}

/// URL polled for the next unit of work.
pub fn next_job_url(base_api_url: &str) -> (r: String)
    ensures
        r@ == base_api_url@ + "/api/map-generation/next-job"@,
{
    let mut s = String::from_str(base_api_url);
    s.append("/api/map-generation/next-job");
    s
}

/// URL a tile's intermediate dataset archive is fetched from and sent to.
pub fn lidar_step_url(base_api_url: &str, tile_id: &str) -> (r: String)
    ensures
        r@ == base_api_url@ + "/api/map-generation/lidar-steps/"@ + tile_id@,
{
    let mut s = String::from_str(base_api_url);
    s.append("/api/map-generation/lidar-steps/");
    s.append(tile_id);
    s
}

/// URL a tile's render artifacts are sent to.
pub fn render_step_url(base_api_url: &str, tile_id: &str) -> (r: String)
    ensures
        r@ == base_api_url@ + "/api/map-generation/render-steps/"@ + tile_id@,
{
    let mut s = String::from_str(base_api_url);
    s.append("/api/map-generation/render-steps/");
    s.append(tile_id);
    s
}

/// URL of the high-resolution base rendering of a tile.
pub fn full_map_url(base_api_url: &str, tile_id: &str) -> (r: String)
    ensures
        r@ == base_api_url@ + "/api/map-generation/render-steps/"@ + tile_id@ + "/full-map"@,
{
    let mut s = render_step_url(base_api_url, tile_id);
    s.append("/full-map");
    s
}

/// URL of one pyramid tile, addressed by area, zoom and coordinates.
pub fn pyramid_tile_url(base_api_url: &str, area_id: &str, z: i32, x: i32, y: i32) -> (r: String)
    ensures
        r@ == base_api_url@ + "/api/map-generation/pyramid-steps/"@ + area_id@ + "/"@ + int_rep(
            z as int,
        ) + "/"@ + int_rep(x as int) + "/"@ + int_rep(y as int),
{
    let mut s = String::from_str(base_api_url);
    s.append("/api/map-generation/pyramid-steps/");
    s.append(area_id);
    s.append("/");
    let zs = i32_to_dec(z);
    s.append(zs.as_str());
    s.append("/");
    let xs = i32_to_dec(x);
    s.append(xs.as_str());
    s.append("/");
    let ys = i32_to_dec(y);
    s.append(ys.as_str());
    s
}

/// The URLs the four children of tile `(x, y, z)` are fetched from
/// during aggregation, one zoom level down, in the fixed quadrant order
/// top-left, top-right, bottom-left, bottom-right.
pub fn child_tile_urls(base_api_url: &str, area_id: &str, z: i32, x: i32, y: i32) -> (r: Vec<
    String,
>)
    requires
        z < i32::MAX,
        i32::MIN / 2 <= x,
        x <= (i32::MAX - 1) / 2,
        i32::MIN / 2 <= y,
        y <= (i32::MAX - 1) / 2,
    ensures
        r@.len() == 4,
        forall|i: int|
            0 <= i < 4 ==> (#[trigger] r@[i])@ == base_api_url@
                + "/api/map-generation/pyramid-steps/"@ + area_id@ + "/"@ + int_rep(z + 1) + "/"@
                + int_rep(child_x(x as int, i)) + "/"@ + int_rep(child_y(y as int, i)),
{
    let children = children_of(x, y);
    let mut r: Vec<String> = Vec::new();
    let mut i: usize = 0;
    while i < 4
        invariant
            i <= 4,
            z < i32::MAX,
            children@.len() == 4,
            forall|j: int|
                0 <= j < 4 ==> children@[j].0 == child_x(x as int, j) && children@[j].1 == child_y(
                    y as int,
                    j,
                ),
            r@.len() == i,
            forall|j: int|
                0 <= j < i ==> (#[trigger] r@[j])@ == base_api_url@
                    + "/api/map-generation/pyramid-steps/"@ + area_id@ + "/"@ + int_rep(z + 1)
                    + "/"@ + int_rep(child_x(x as int, j)) + "/"@ + int_rep(child_y(y as int, j)),
        decreases 4 - i,
    {
        let (cx, cy) = children[i];
        r.push(pyramid_tile_url(base_api_url, area_id, z + 1, cx, cy));
        i = i + 1;
    }
    r
}

/// URL of the batched base-level upload for the base tile at `(x, y)`.
pub fn pyramid_base_level_url(base_api_url: &str, area_id: &str, x: i32, y: i32) -> (r: String)
    ensures
        r@ == base_api_url@ + "/api/map-generation/pyramid-steps/"@ + area_id@ + "/base-level/"@
            + int_rep(x as int) + "/"@ + int_rep(y as int),
{
    let mut s = String::from_str(base_api_url);
    s.append("/api/map-generation/pyramid-steps/");
    s.append(area_id);
    s.append("/base-level/");
    let xs = i32_to_dec(x);
    s.append(xs.as_str());
    s.append("/");
    let ys = i32_to_dec(y);
    s.append(ys.as_str());
    s
}

/// Whether an HTTP status reports success.
pub open spec fn spec_is_success(status: u16) -> bool {
    200 <= status < 300
}

/// Whether an HTTP status reports success (the 2xx class).
pub fn is_success_status(status: u16) -> (r: bool)
    ensures
        r == spec_is_success(status),
{
    200 <= status && status < 300
}

/// How a child-tile fetch during pyramid aggregation is treated: a
/// not-found answer is tolerated as a missing child, any other
/// non-success status fails the job.
pub fn child_fetch_tolerated(status: u16) -> (r: bool)
    ensures
        r == (spec_is_success(status) || status == 404),
{
    is_success_status(status) || status == 404
}

} // verus!
