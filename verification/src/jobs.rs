//! Job dispatch: the closed set of job kinds the remote job source
//! hands out, and the routing of each decoded job to exactly one
//! handler. A job is consumed exactly once; on `NoJobLeft` the worker
//! backs off for a fixed delay and retries instead of failing.

use vstd::prelude::*;

verus! {

/// Backoff before polling again when the job source has no work left,
/// in milliseconds.
pub const NO_JOB_BACKOFF_MS: u64 = 30000;

/// A unit of work decoded from the job source.
pub enum Job {
    /// Fetch a point-cloud file and run the processing engine on it.
    Lidar { tile_id: String, source_url: String },
    /// Render a tile from its own and its neighbors' cached datasets.
    Render { tile_id: String, neighbor_tile_ids: Vec<String> },
    /// Build pyramid tiles at `(x, y, z)`; a base tile id selects
    /// base-level expansion, its absence lower-zoom aggregation.
    Pyramid {
        x: i32,
        y: i32,
        z: i32,
        base_zoom_tile_id: Option<String>,
        area_id: String,
    },
    /// The job source has nothing to hand out right now.
    NoJobLeft,
}

/// Which handler runs, with what, or how long to back off.
pub enum Dispatch {
    RunLidar { tile_id: String, source_url: String },
    RunRender { tile_id: String, neighbor_tile_ids: Vec<String> },
    RunPyramidBase { x: i32, y: i32, z: i32, base_zoom_tile_id: String, area_id: String },
    RunPyramidLower { x: i32, y: i32, z: i32, area_id: String },
    BackoffAndRetry { delay_ms: u64 },
}

/// Routes one decoded job to exactly one handler, unmodified; the
/// termination signal becomes a fixed backoff followed by a retry.
pub fn dispatch(job: Job) -> (d: Dispatch)
    ensures
        match job {
            Job::Lidar { tile_id, source_url } => d == (Dispatch::RunLidar {
                tile_id,
                source_url,
            }),
            Job::Render { tile_id, neighbor_tile_ids } => d == (Dispatch::RunRender {
                tile_id,
                neighbor_tile_ids,
            }),
            Job::Pyramid { x, y, z, base_zoom_tile_id, area_id } => match base_zoom_tile_id {
                Some(t) => d == (Dispatch::RunPyramidBase {
                    x,
                    y,
                    z,
                    base_zoom_tile_id: t,
                    area_id,
                }),
                None => d == (Dispatch::RunPyramidLower { x, y, z, area_id }),
            },
            Job::NoJobLeft => d == (Dispatch::BackoffAndRetry { delay_ms: NO_JOB_BACKOFF_MS }),
        },
{
    match job {
        Job::Lidar { tile_id, source_url } => Dispatch::RunLidar { tile_id, source_url },
        Job::Render { tile_id, neighbor_tile_ids } => Dispatch::RunRender {
            tile_id,
            neighbor_tile_ids,
        },
        Job::Pyramid { x, y, z, base_zoom_tile_id, area_id } => match base_zoom_tile_id {
            Some(t) => Dispatch::RunPyramidBase { x, y, z, base_zoom_tile_id: t, area_id },
            None => Dispatch::RunPyramidLower { x, y, z, area_id },
        },
        Job::NoJobLeft => Dispatch::BackoffAndRetry { delay_ms: NO_JOB_BACKOFF_MS },
    }
}

} // verus!
