use mapant_worker::cache::{
    cache_step, entry_after_attempt, CacheDecision, CacheEntry, ClaimRegistry, TileKey,
};
use mapant_worker::jobs::{dispatch, Dispatch, Job};
use mapant_worker::lidar::lidar_plan;
use mapant_worker::render::{
    clip_window, crop_window, hq_offset, place_on_hq_square, placement_needed, render_plan,
    RenderError,
};
use mapant_worker::transfer::{
    auth_header_value, child_fetch_tolerated, child_tile_urls, full_map_url, is_success_status,
    lidar_step_url, next_job_url, pyramid_base_level_url, pyramid_tile_url, render_step_url,
};
use mapant_worker::worker::{
    worker_count, worker_transition, Args, WorkerAction, WorkerEvent, WorkerState,
};
use mapant_worker::imaging::{decode_raster, encode_raster};
use mapant_worker::raster::{Raster, Rgba};

fn key(e: i64, n: i64) -> TileKey {
    TileKey {
        easting: e,
        northing: n,
    }
}

#[test]
fn claim_mutual_exclusion_one_winner() {
    let mut reg = ClaimRegistry::new();
    let k = key(601000, 6520000);
    let mut wins = 0;
    for _ in 0..5 {
        if reg.try_claim(k) {
            wins += 1;
        }
    }
    assert_eq!(wins, 1);
    assert!(reg.holds(k));
}

#[test]
fn claim_release_lets_the_next_one_in() {
    let mut reg = ClaimRegistry::new();
    let k = key(1, 2);
    assert!(reg.try_claim(k));
    assert!(!reg.try_claim(k));
    reg.release(k);
    assert!(!reg.holds(k));
    assert!(reg.try_claim(k));
}

#[test]
fn claims_on_different_tiles_are_independent() {
    let mut reg = ClaimRegistry::new();
    let a = key(0, 0);
    let b = key(0, 1000);
    assert!(reg.try_claim(a));
    assert!(reg.try_claim(b));
    reg.release(a);
    assert!(!reg.holds(a));
    assert!(reg.holds(b));
}

#[test]
fn cache_protocol_decisions() {
    assert_eq!(cache_step(CacheEntry::Ready, 0), CacheDecision::UseReady);
    assert_eq!(cache_step(CacheEntry::Ready, 10), CacheDecision::UseReady);
    assert_eq!(
        cache_step(CacheEntry::InProgress, 3),
        CacheDecision::Wait { delay_ms: 500 }
    );
    assert_eq!(cache_step(CacheEntry::InProgress, 0), CacheDecision::GiveUp);
    assert_eq!(
        cache_step(CacheEntry::Absent, 3),
        CacheDecision::Claim { clean_first: false }
    );
    assert_eq!(
        cache_step(CacheEntry::Corrupt, 3),
        CacheDecision::Claim { clean_first: true }
    );
}

#[test]
fn finished_attempts_mark_the_entry() {
    assert_eq!(entry_after_attempt(true), CacheEntry::Ready);
    assert_eq!(entry_after_attempt(false), CacheEntry::Corrupt);
}

#[test]
fn dispatch_routes_each_kind_once() {
    match dispatch(Job::Lidar {
        tile_id: "601000_6520000".to_string(),
        source_url: "https://data.example/a.laz".to_string(),
    }) {
        Dispatch::RunLidar { tile_id, source_url } => {
            assert_eq!(tile_id, "601000_6520000");
            assert_eq!(source_url, "https://data.example/a.laz");
        }
        _ => panic!("wrong handler"),
    }
    match dispatch(Job::Render {
        tile_id: "t".to_string(),
        neighbor_tile_ids: vec!["a".to_string(), "b".to_string()],
    }) {
        Dispatch::RunRender { tile_id, neighbor_tile_ids } => {
            assert_eq!(tile_id, "t");
            assert_eq!(neighbor_tile_ids, vec!["a".to_string(), "b".to_string()]);
        }
        _ => panic!("wrong handler"),
    }
    match dispatch(Job::Pyramid {
        x: 3,
        y: 5,
        z: 10,
        base_zoom_tile_id: None,
        area_id: "42".to_string(),
    }) {
        Dispatch::RunPyramidLower { x, y, z, area_id } => {
            assert_eq!((x, y, z), (3, 5, 10));
            assert_eq!(area_id, "42");
        }
        _ => panic!("wrong handler"),
    }
    match dispatch(Job::Pyramid {
        x: 3,
        y: 5,
        z: 11,
        base_zoom_tile_id: Some("601000_6520000".to_string()),
        area_id: "42".to_string(),
    }) {
        Dispatch::RunPyramidBase { base_zoom_tile_id, .. } => {
            assert_eq!(base_zoom_tile_id, "601000_6520000");
        }
        _ => panic!("wrong handler"),
    }
    match dispatch(Job::NoJobLeft) {
        Dispatch::BackoffAndRetry { delay_ms } => assert_eq!(delay_ms, 30000),
        _ => panic!("wrong handler"),
    }
}

#[test]
fn worker_cycles_and_never_stops() {
    assert_eq!(
        worker_transition(WorkerState::Polling, WorkerEvent::JobReceived),
        (WorkerState::Executing, WorkerAction::ExecuteJob)
    );
    assert_eq!(
        worker_transition(WorkerState::Executing, WorkerEvent::JobFinished),
        (
            WorkerState::Polling,
            WorkerAction::SleepThenPoll { delay_ms: 1 }
        )
    );
    assert_eq!(
        worker_transition(WorkerState::Executing, WorkerEvent::JobFailed),
        (
            WorkerState::Polling,
            WorkerAction::SleepThenPoll { delay_ms: 1000 }
        )
    );
    assert_eq!(
        worker_transition(WorkerState::Polling, WorkerEvent::PollFailed),
        (
            WorkerState::Polling,
            WorkerAction::SleepThenPoll { delay_ms: 1000 }
        )
    );
    // the pair that cannot occur falls back to polling
    assert_eq!(
        worker_transition(WorkerState::Executing, WorkerEvent::JobReceived),
        (
            WorkerState::Polling,
            WorkerAction::SleepThenPoll { delay_ms: 1 }
        )
    );
}

#[test]
fn worker_pool_sizing() {
    assert_eq!(worker_count(None), 3);
    assert_eq!(worker_count(Some(8)), 8);
    assert_eq!(Args { threads: None }.thread_count(), 3);
    assert_eq!(Args { threads: Some(1) }.thread_count(), 1);
}

#[test]
fn bearer_credential_shape() {
    assert_eq!(auth_header_value("w1", "tok"), "Bearer w1.tok");
}

#[test]
fn endpoint_urls() {
    let base = "https://maps.example";
    assert_eq!(
        next_job_url(base),
        "https://maps.example/api/map-generation/next-job"
    );
    assert_eq!(
        lidar_step_url(base, "601000_6520000"),
        "https://maps.example/api/map-generation/lidar-steps/601000_6520000"
    );
    assert_eq!(
        render_step_url(base, "601000_6520000"),
        "https://maps.example/api/map-generation/render-steps/601000_6520000"
    );
    assert_eq!(
        full_map_url(base, "601000_6520000"),
        "https://maps.example/api/map-generation/render-steps/601000_6520000/full-map"
    );
    assert_eq!(
        pyramid_tile_url(base, "42", 10, 3, 5),
        "https://maps.example/api/map-generation/pyramid-steps/42/10/3/5"
    );
    assert_eq!(
        pyramid_base_level_url(base, "42", 3, 5),
        "https://maps.example/api/map-generation/pyramid-steps/42/base-level/3/5"
    );
}

#[test]
fn child_fetch_urls_in_quadrant_order() {
    let urls = child_tile_urls("https://maps.example", "42", 10, 3, 5);
    assert_eq!(
        urls,
        vec![
            "https://maps.example/api/map-generation/pyramid-steps/42/11/6/10".to_string(),
            "https://maps.example/api/map-generation/pyramid-steps/42/11/7/10".to_string(),
            "https://maps.example/api/map-generation/pyramid-steps/42/11/6/11".to_string(),
            "https://maps.example/api/map-generation/pyramid-steps/42/11/7/11".to_string(),
        ]
    );
}

#[test]
fn status_classification() {
    assert!(is_success_status(200));
    assert!(is_success_status(204));
    assert!(!is_success_status(199));
    assert!(!is_success_status(300));
    assert!(!is_success_status(404));
    assert!(!is_success_status(500));
    assert!(child_fetch_tolerated(200));
    assert!(child_fetch_tolerated(404));
    assert!(!child_fetch_tolerated(403));
    assert!(!child_fetch_tolerated(500));
}

#[test]
fn lidar_step_layout() {
    let p = lidar_plan("601000_6520000", "https://maps.example");
    assert_eq!(p.laz_path, "lidar-files/601000_6520000.laz");
    assert_eq!(p.output_dir, "lidar-step/601000_6520000");
    assert_eq!(p.archive_name, "601000_6520000.tar.xz");
    assert_eq!(p.archive_path, "lidar-step/601000_6520000.tar.xz");
    assert_eq!(
        p.upload_url,
        "https://maps.example/api/map-generation/lidar-steps/601000_6520000"
    );
    assert_eq!(p.content_type, "application/x-bzip2");
}

#[test]
fn crop_and_clip_windows() {
    let extent = (601000, 6520000, 602000, 6521000);
    assert_eq!(crop_window(extent), (601000, 6521000, 602000, 6520000));
    assert_eq!(
        clip_window(extent),
        (600980, 6519980, 602020, 6521020)
    );
}

#[test]
fn hq_offsets_round_to_nearest_pixel() {
    assert_eq!(hq_offset(0, 1000), 0);
    assert_eq!(hq_offset(1000, 1000), 2362);
    // 2362 * 250 / 1000 = 590.5, rounded half away from zero
    assert_eq!(hq_offset(250, 1000), 591);
    // 2362 * 100 / 1000 = 236.2
    assert_eq!(hq_offset(100, 1000), 236);
    // 2362 * 900 / 1000 = 2125.8
    assert_eq!(hq_offset(900, 1000), 2126);
}

#[test]
fn hq_placement_pads_and_positions() {
    let img = Raster::new_filled(
        2,
        2,
        Rgba {
            r: 10,
            g: 20,
            b: 30,
            a: 255,
        },
    );
    let png = encode_raster(&img);
    let out = place_on_hq_square(&png, (0, 0, 1000, 1000), 0, 1000).unwrap();
    let sq = decode_raster(&out).unwrap();
    assert_eq!(sq.width(), 2362);
    assert_eq!(sq.height(), 2362);
    assert_eq!(
        sq.get(0, 0),
        Rgba {
            r: 10,
            g: 20,
            b: 30,
            a: 255
        }
    );
    assert_eq!(sq.get(1, 1).a, 255);
    assert_eq!(sq.get(2, 2).a, 0);
    assert_eq!(sq.get(2000, 2000).a, 0);
}

#[test]
fn hq_placement_offsets_by_real_extent() {
    let img = Raster::new_filled(
        1,
        1,
        Rgba {
            r: 1,
            g: 2,
            b: 3,
            a: 255,
        },
    );
    let png = encode_raster(&img);
    // 500 ground units in: pixel offset 1181 both ways
    let out = place_on_hq_square(&png, (0, 0, 1000, 1000), 500, 500).unwrap();
    let sq = decode_raster(&out).unwrap();
    assert_eq!(sq.get(1181, 1181).a, 255);
    assert_eq!(sq.get(0, 0).a, 0);
}

#[test]
fn hq_placement_rejects_misfits_and_garbage() {
    let img = Raster::new_filled(1, 1, Rgba { r: 0, g: 0, b: 0, a: 255 });
    let png = encode_raster(&img);
    assert_eq!(
        place_on_hq_square(&png, (0, 0, 1000, 1000), 1000, 1000),
        Err(RenderError::DoesNotFit)
    );
    assert_eq!(
        place_on_hq_square(&vec![1u8, 2, 3], (0, 0, 1000, 1000), 0, 1000),
        Err(RenderError::BadImage)
    );
}

#[test]
fn placement_decision_compares_extents() {
    let full = (0, 0, 1000, 1000);
    assert!(!placement_needed(full, (0, 0, 1000, 1000)));
    assert!(placement_needed(full, (0, 0, 900, 1000)));
    assert!(placement_needed(full, (10, 0, 1000, 1000)));
}

#[test]
fn render_step_layout() {
    let p = render_plan("601000_6520000", "https://maps.example");
    assert_eq!(p.lidar_dir, "lidar-step/601000_6520000");
    assert_eq!(p.output_dir, "render-step/601000_6520000");
    assert_eq!(p.rasters_subdir, "rasters");
    assert_eq!(p.shapefiles_subdir, "shapefiles");
    assert_eq!(p.pngs_subdir, "pngs");
    assert_eq!(p.crops.len(), 5);
    assert_eq!(p.crops[0].0, "dem-with-buffer.tif");
    assert_eq!(p.crops[0].1, "dem.tif");
    assert_eq!(p.crops[4].0, "slopes.tif");
    assert_eq!(p.copies, vec!["extent.txt".to_string(), "pipeline.json".to_string()]);
    assert_eq!(p.clips.len(), 5);
    assert_eq!(p.clips[0].0, "shapes/lines.shp");
    assert_eq!(p.clips[0].1, "vectors/lines.shp");
    assert_eq!(p.pngs.len(), 3);
    assert_eq!(p.rasters_archive_name, "rasters_601000_6520000.tar.xz");
    assert_eq!(p.shapefiles_archive_name, "shapefiles_601000_6520000.tar.xz");
    assert_eq!(p.pngs_archive_name, "pngs_601000_6520000.tar.xz");
    assert_eq!(
        p.upload_url,
        "https://maps.example/api/map-generation/render-steps/601000_6520000"
    );
    assert_eq!(p.uploads.len(), 4);
    assert_eq!(p.uploads[0].1, "rasters");
    assert_eq!(p.uploads[3].0, "full-map.png");
    assert_eq!(p.uploads[3].3, "image/png");
}
