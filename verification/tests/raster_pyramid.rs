use mapant_worker::imaging::{decode_raster, encode_raster};
use mapant_worker::pyramid::{build_base_level_tiles, merge_child_tiles, PyramidError};
use mapant_worker::raster::{Raster, Rgba};

fn solid(w: u32, h: u32, p: Rgba) -> Raster {
    Raster::new_filled(w, h, p)
}

fn clear() -> Rgba {
    Rgba { r: 0, g: 0, b: 0, a: 0 }
}

fn red() -> Rgba {
    Rgba { r: 255, g: 0, b: 0, a: 255 }
}

fn green() -> Rgba {
    Rgba { r: 0, g: 255, b: 0, a: 255 }
}

fn blue() -> Rgba {
    Rgba { r: 0, g: 0, b: 255, a: 255 }
}

#[test]
fn raster_fill_and_get() {
    let r = solid(3, 2, red());
    assert_eq!(r.width(), 3);
    assert_eq!(r.height(), 2);
    for y in 0..2 {
        for x in 0..3 {
            assert_eq!(r.get(x, y), red());
        }
    }
}

#[test]
fn raster_from_parts_checks_byte_count() {
    assert!(Raster::from_parts(2, 2, vec![0u8; 16]).is_some());
    assert!(Raster::from_parts(2, 2, vec![0u8; 15]).is_none());
    assert!(Raster::from_parts(2, 2, vec![0u8; 17]).is_none());
    assert!(Raster::from_parts(20000, 1, vec![0u8; 80000]).is_none());
}

#[test]
fn raster_crop_reads_the_sub_rectangle() {
    let mut bytes: Vec<u8> = Vec::new();
    for k in 0..16u8 {
        bytes.extend_from_slice(&[k, k, k, 255]);
    }
    let r = Raster::from_parts(4, 4, bytes).unwrap();
    let c = r.crop(1, 2, 2, 2);
    assert_eq!(c.width(), 2);
    assert_eq!(c.height(), 2);
    assert_eq!(c.get(0, 0), r.get(1, 2));
    assert_eq!(c.get(1, 1), r.get(2, 3));
}

#[test]
fn raster_overlay_places_and_preserves() {
    let base = solid(4, 4, red());
    let patch = solid(2, 2, blue());
    let out = base.overlay(&patch, 1, 1);
    assert_eq!(out.get(0, 0), red());
    assert_eq!(out.get(1, 1), blue());
    assert_eq!(out.get(2, 2), blue());
    assert_eq!(out.get(3, 3), red());
}

#[test]
fn split_then_reassemble_is_identity() {
    let mut bytes: Vec<u8> = Vec::new();
    for k in 0..64u8 {
        bytes.push(k);
    }
    let r = Raster::from_parts(4, 4, bytes.clone()).unwrap();
    let quads = r.split_in_four();
    assert_eq!(quads.len(), 4);
    let canvas = solid(4, 4, clear());
    let canvas = canvas.overlay(&quads[0], 0, 0);
    let canvas = canvas.overlay(&quads[1], 2, 0);
    let canvas = canvas.overlay(&quads[2], 0, 2);
    let canvas = canvas.overlay(&quads[3], 2, 2);
    assert_eq!(canvas.into_bytes(), bytes);
}

#[test]
fn split_then_reassemble_is_identity_larger() {
    let mut bytes: Vec<u8> = Vec::new();
    for k in 0..(6 * 8 * 4) {
        bytes.push((k % 251) as u8);
    }
    let r = Raster::from_parts(6, 8, bytes.clone()).unwrap();
    let quads = r.split_in_four();
    let canvas = solid(6, 8, clear());
    let canvas = canvas.overlay(&quads[0], 0, 0);
    let canvas = canvas.overlay(&quads[1], 3, 0);
    let canvas = canvas.overlay(&quads[2], 0, 4);
    let canvas = canvas.overlay(&quads[3], 3, 4);
    assert_eq!(canvas.into_bytes(), bytes);
}

#[test]
fn png_round_trip_preserves_pixels() {
    let mut bytes: Vec<u8> = Vec::new();
    for k in 0..(5 * 7 * 4) {
        bytes.push((k * 3 % 256) as u8);
    }
    let r = Raster::from_parts(5, 7, bytes.clone()).unwrap();
    let png = encode_raster(&r);
    assert_ne!(png, bytes);
    let back = decode_raster(&png).unwrap();
    assert_eq!(back.width(), 5);
    assert_eq!(back.height(), 7);
    assert_eq!(back.into_bytes(), bytes);
}

#[test]
fn png_round_trip_at_largest_accepted_size() {
    // the largest raster the library accepts still decodes back
    let side: u32 = 8192;
    let r = solid(side, side, Rgba { r: 7, g: 8, b: 9, a: 10 });
    let png = encode_raster(&r);
    let back = decode_raster(&png).unwrap();
    assert_eq!(back.width(), side);
    assert_eq!(back.height(), side);
    assert_eq!(back.get(0, 0), Rgba { r: 7, g: 8, b: 9, a: 10 });
    assert_eq!(back.get(side - 1, side - 1), Rgba { r: 7, g: 8, b: 9, a: 10 });
}

#[test]
fn raster_construction_respects_the_side_cap() {
    assert!(Raster::from_parts(8192, 1, vec![0u8; 4 * 8192]).is_some());
    assert!(Raster::from_parts(8193, 1, vec![0u8; 4 * 8193]).is_none());
}

#[test]
fn decode_rejects_garbage() {
    assert!(decode_raster(&vec![9u8, 9, 9, 9]).is_none());
    assert!(decode_raster(&Vec::new()).is_none());
}

#[test]
fn missing_child_leaves_quadrant_transparent() {
    // the canvas-level fact behind aggregation: three children placed,
    // the bottom-right one absent
    let canvas = solid(512, 512, clear());
    let canvas = canvas.overlay(&solid(256, 256, red()), 0, 0);
    let canvas = canvas.overlay(&solid(256, 256, green()), 256, 0);
    let canvas = canvas.overlay(&solid(256, 256, blue()), 0, 256);
    assert_eq!(canvas.get(10, 10), red());
    assert_eq!(canvas.get(300, 10), green());
    assert_eq!(canvas.get(10, 300), blue());
    assert_eq!(canvas.get(300, 300), clear());
    assert_eq!(canvas.get(511, 511), clear());
}

#[test]
fn merge_tolerates_missing_child() {
    let children = vec![
        Some(encode_raster(&solid(256, 256, red()))),
        Some(encode_raster(&solid(256, 256, green()))),
        Some(encode_raster(&solid(256, 256, blue()))),
        None,
    ];
    let merged = merge_child_tiles(&children).unwrap();
    let tile = decode_raster(&merged).unwrap();
    assert_eq!(tile.width(), 256);
    assert_eq!(tile.height(), 256);
    // the quadrant whose child was missing stays fully transparent
    assert_eq!(tile.get(200, 200).a, 0);
    // a present quadrant is opaque
    assert_eq!(tile.get(50, 50).a, 255);
}

#[test]
fn merge_treats_undecodable_child_as_missing() {
    let children = vec![
        Some(encode_raster(&solid(256, 256, red()))),
        Some(vec![1u8, 2, 3]),
        None,
        None,
    ];
    let merged = merge_child_tiles(&children).unwrap();
    let tile = decode_raster(&merged).unwrap();
    assert_eq!(tile.get(200, 50).a, 0);
    assert_eq!(tile.get(50, 50).a, 255);
}

#[test]
fn merge_of_no_children_is_fully_transparent() {
    let children = vec![None, None, None, None];
    let merged = merge_child_tiles(&children).unwrap();
    let tile = decode_raster(&merged).unwrap();
    for (x, y) in [(0u32, 0u32), (128, 128), (255, 255)] {
        assert_eq!(tile.get(x, y), clear());
    }
}

#[test]
fn merge_rejects_oversized_child() {
    let children = vec![
        Some(encode_raster(&solid(257, 256, red()))),
        None,
        None,
        None,
    ];
    assert_eq!(merge_child_tiles(&children), Err(PyramidError::OversizedChild));
}

#[test]
fn base_level_produces_twenty_one_named_tiles() {
    let mut bytes: Vec<u8> = Vec::new();
    for k in 0..(8 * 8 * 4) {
        bytes.push((k % 256) as u8);
    }
    let src = Raster::from_parts(8, 8, bytes).unwrap();
    let png = encode_raster(&src);
    let tiles = build_base_level_tiles(&png, 3, 5, "42").unwrap();
    assert_eq!(tiles.len(), 21);
    // first grandchild: child quadrant top-left, its own top-left
    assert_eq!(tiles[0].z, 13);
    assert_eq!(tiles[0].x, 12);
    assert_eq!(tiles[0].y, 20);
    assert_eq!(tiles[0].file_name, "20.png");
    assert_eq!(tiles[0].form_part, "13_12_20");
    assert_eq!(tiles[0].rel_path, "tiles/42/13/12/20.png");
    // last grandchild: bottom-right of the bottom-right child
    assert_eq!(tiles[15].z, 13);
    assert_eq!(tiles[15].x, 15);
    assert_eq!(tiles[15].y, 23);
    // the four children
    assert_eq!(
        (tiles[16].z, tiles[16].x, tiles[16].y),
        (12, 6, 10)
    );
    assert_eq!(
        (tiles[19].z, tiles[19].x, tiles[19].y),
        (12, 7, 11)
    );
    assert_eq!(tiles[16].form_part, "12_6_10");
    // the base tile itself
    assert_eq!((tiles[20].z, tiles[20].x, tiles[20].y), (11, 3, 5));
    assert_eq!(tiles[20].file_name, "5.png");
    assert_eq!(tiles[20].form_part, "11_3_5");
    assert_eq!(tiles[20].rel_path, "tiles/42/11/3/5.png");
    for t in tiles.iter() {
        let img = decode_raster(&t.bytes).unwrap();
        assert_eq!(img.width(), 256);
        assert_eq!(img.height(), 256);
    }
}

#[test]
fn base_level_rejects_bad_sources() {
    assert!(matches!(
        build_base_level_tiles(&vec![0u8, 1, 2], 0, 0, "42"),
        Err(PyramidError::SourceUndecodable)
    ));
    let non_square = encode_raster(&solid(8, 6, red()));
    assert!(matches!(
        build_base_level_tiles(&non_square, 0, 0, "42"),
        Err(PyramidError::SourceShape)
    ));
    let tiny = encode_raster(&solid(2, 2, red()));
    assert!(matches!(
        build_base_level_tiles(&tiny, 0, 0, "42"),
        Err(PyramidError::SourceShape)
    ));
}
