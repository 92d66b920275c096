//! The pyramid builder: merging four child tiles into their parent
//! (lower-zoom aggregation) and quartering a base tile down two zoom
//! levels (base-level expansion), both pixel-exact up to the final
//! high-quality downsample.

use vstd::prelude::*;
use vstd::string::*;
use vstd::arithmetic::div_mod::lemma_fundamental_div_mod_converse;
use crate::raster::{Raster, RasterView, Rgba, transparent, view_crop, view_overlay, view_filled,
    lemma_overlay_pix, lemma_filled_pix, RASTER_MAX_DIM};
use crate::imaging::{png_pixels_of, lanczos_resize_of, png_decode_parts, encode_raster,
    resize_raster_square};
use crate::tiles::{TILE_PIXEL_SIZE, quad_dx, quad_dy, child_x, child_y, in_quad};
use crate::strings::{int_rep, i32_to_dec};

verus! {

/// Why a pyramid operation failed.
#[derive(Clone, Copy, Debug, PartialEq, Eq, Structural)]
pub enum PyramidError {
    /// A child tile decoded to an image wider or taller than a tile.
    OversizedChild,
    /// The base source image did not decode.
    SourceUndecodable,
    /// The base source image is not a square of workable size.
    SourceShape,
}

/// How one fetched child behaves during aggregation: absent or
/// undecodable bytes are a missing child, a decoded image at most a tile
/// wide and tall takes part, anything larger fails the job.
pub ghost enum ChildState {
    Missing,
    Present(RasterView),
    Oversized,
}

/// Classifies one child download.
pub open spec fn child_state(oc: Option<Vec<u8>>) -> ChildState {
    match oc {
        Option::None => ChildState::Missing,
        Option::Some(b) => match png_pixels_of(b@) {
            Option::None => ChildState::Missing,
            Option::Some(v) => if v.width <= TILE_PIXEL_SIZE && v.height <= TILE_PIXEL_SIZE {
                ChildState::Present(v)
            } else {
                ChildState::Oversized
            },
        },
    }
}

/// One aggregation step: a present child is composited into its
/// quadrant, a missing one leaves the canvas untouched.
pub open spec fn merge_step(acc: RasterView, oc: Option<Vec<u8>>, i: int) -> RasterView {
    match child_state(oc) {
        ChildState::Present(v) => view_overlay(
            acc,
            v,
            quad_dx(i) * (TILE_PIXEL_SIZE as int),
            quad_dy(i) * (TILE_PIXEL_SIZE as int),
        ),
        _ => acc,
    }
}

/// The canvas after compositing the first `n` children onto the
/// transparent doubled canvas.
pub open spec fn merged_prefix(cs: Seq<Option<Vec<u8>>>, n: int) -> RasterView
    decreases n,
{
    if n <= 0 {
        view_filled(2 * (TILE_PIXEL_SIZE as int), 2 * (TILE_PIXEL_SIZE as int), transparent())
    } else {
        merge_step(merged_prefix(cs, n - 1), cs[n - 1], n - 1)
    }
}

/// The doubled canvas with the up-to-four children in their quadrants.
pub open spec fn merged_canvas(cs: Seq<Option<Vec<u8>>>) -> RasterView {
    merged_prefix(cs, 4)
}

/// Whether some child decoded to an image too large for its quadrant.
pub open spec fn any_oversized(cs: Seq<Option<Vec<u8>>>) -> bool {
    exists|i: int| 0 <= i < cs.len() && child_state(#[trigger] cs[i]) is Oversized
}

/// The canvas is as wide and tall as two tiles, whatever the children.
pub proof fn lemma_merged_prefix_dims(cs: Seq<Option<Vec<u8>>>, n: int)
    requires
        n >= 0,
    ensures
        merged_prefix(cs, n).width == 2 * (TILE_PIXEL_SIZE as int),
        merged_prefix(cs, n).height == 2 * (TILE_PIXEL_SIZE as int),
    decreases n,
{
    if n > 0 {
        lemma_merged_prefix_dims(cs, n - 1);
        match child_state(cs[n - 1]) {
            ChildState::Present(v) => {},
            _ => {},
        }
    }
}

/// Missing-child tolerance: every pixel of a quadrant whose child is
/// missing stays fully transparent in the merged canvas; the other
/// children never reach into it.
pub proof fn lemma_missing_child_transparent(
    cs: Seq<Option<Vec<u8>>>,
    i: int,
    px: int,
    py: int,
)
    requires
        cs.len() == 4,
        0 <= i < 4,
        child_state(cs[i]) is Missing,
        in_quad(i, px, py, TILE_PIXEL_SIZE as int),
    ensures
        merged_canvas(cs).pix(px, py) == transparent(),
{
    let t = TILE_PIXEL_SIZE as int;
    assert(0 <= px < 2 * t && 0 <= py < 2 * t) by {
        assert(quad_dx(i) == 0 || quad_dx(i) == 1);
        assert(quad_dy(i) == 0 || quad_dy(i) == 1);
    }
    lemma_filled_pix(2 * t, 2 * t, transparent(), px, py);
    assert forall|n: int| 0 <= n < 4 implies #[trigger] merged_prefix(cs, n + 1).pix(px, py)
        == merged_prefix(cs, n).pix(px, py) by {
        lemma_merged_prefix_dims(cs, n);
        let prev = merged_prefix(cs, n);
        match child_state(cs[n]) {
            ChildState::Present(v) => {
                lemma_overlay_pix(prev, v, quad_dx(n) * t, quad_dy(n) * t, px, py);
                if n == i {
                    assert(false);
                } else {
                    // the child lies inside quadrant n, disjoint from quadrant i
                    assert(quad_dx(n) == 0 || quad_dx(n) == 1);
                    assert(quad_dy(n) == 0 || quad_dy(n) == 1);
                    assert(quad_dx(i) == 0 || quad_dx(i) == 1);
                    assert(quad_dy(i) == 0 || quad_dy(i) == 1);
                    assert(n == 2 * quad_dy(n) + quad_dx(n));
                    assert(i == 2 * quad_dy(i) + quad_dx(i));
                    assert(v.width <= t && v.height <= t);
                    assert(!(quad_dx(n) * t <= px < quad_dx(n) * t + v.width && quad_dy(n) * t
                        <= py < quad_dy(n) * t + v.height));
                }
            },
            _ => {},
        }
    }
    assert(merged_prefix(cs, 1).pix(px, py) == merged_prefix(cs, 0).pix(px, py));
    assert(merged_prefix(cs, 2).pix(px, py) == merged_prefix(cs, 1).pix(px, py));
    assert(merged_prefix(cs, 3).pix(px, py) == merged_prefix(cs, 2).pix(px, py));
    assert(merged_prefix(cs, 4).pix(px, py) == merged_prefix(cs, 3).pix(px, py));
}

/// Lower-zoom aggregation on in-memory tiles: composites the up-to-four
/// children (top-left, top-right, bottom-left, bottom-right) onto a
/// transparent canvas twice the tile size, each in its quadrant, then
/// downsamples to one tile and encodes it. A missing or undecodable
/// child leaves its quadrant transparent; a child larger than a tile
/// fails, and nothing else does.
pub fn merge_child_tiles(children: &Vec<Option<Vec<u8>>>) -> (r: Result<Vec<u8>, PyramidError>)
    requires
        children@.len() == 4,
    ensures
        r is Err <==> any_oversized(children@),
        r is Err ==> r == Err::<Vec<u8>, PyramidError>(PyramidError::OversizedChild),
        r is Ok ==> png_pixels_of(r.unwrap()@) == Some(
            (RasterView {
                width: TILE_PIXEL_SIZE as int,
                height: TILE_PIXEL_SIZE as int,
                data: lanczos_resize_of(merged_canvas(children@), TILE_PIXEL_SIZE as int),
            }),
        ),
{
    let t: u32 = TILE_PIXEL_SIZE;
    let mut canvas = Raster::new_filled(2 * t, 2 * t, Rgba { r: 0, g: 0, b: 0, a: 0 });
    let mut i: usize = 0;
    while i < 4
        invariant
            i <= 4,
            children@.len() == 4,
            t == TILE_PIXEL_SIZE,
            canvas@ == merged_prefix(children@, i as int),
            canvas@.wf(),
            forall|j: int| 0 <= j < i ==> !(child_state(#[trigger] children@[j]) is Oversized),
        decreases 4 - i,
    {
        proof {
            lemma_merged_prefix_dims(children@, i as int);
        }
        match &children[i] {
            None => {
                assert(child_state(children@[i as int]) is Missing);
            },
            Some(b) => {
                match png_decode_parts(b) {
                    None => {
                        assert(child_state(children@[i as int]) is Missing);
                    },
                    Some((w, h, data)) => {
                        if w > t || h > t {
                            assert(child_state(children@[i as int]) is Oversized);
                            return Err(PyramidError::OversizedChild);
                        }
                        let child = match Raster::from_parts(w, h, data) {
                            Some(c) => c,
                            None => {
                                proof {
                                    assert(false);
                                }
                                return Err(PyramidError::OversizedChild);
                            },
                        };
                        let dx: u32 = ((i % 2) as u32) * t;
                        let dy: u32 = ((i / 2) as u32) * t;
                        proof {
                            assert(dx as int == quad_dx(i as int) * (t as int));
                            assert(dy as int == quad_dy(i as int) * (t as int));
                        }
                        canvas = canvas.overlay(&child, dx, dy);
                        assert(child_state(children@[i as int]) is Present);
                    },
                }
            },
        }
        i = i + 1;
    }
    proof {
        lemma_merged_prefix_dims(children@, 4);
    }
    let resized = resize_raster_square(&canvas, t);
    let out = encode_raster(&resized);
    proof {
        assert(forall|j: int|
            0 <= j < 4 ==> !(child_state(#[trigger] children@[j]) is Oversized));
    }
    Ok(out)
}


/// One tile of a base-level batch: its pyramid address, the names it is
/// uploaded under, its on-disk relative path, and its encoded bytes.
pub struct TileUpload {
    pub z: i32,
    pub x: i32,
    pub y: i32,
    pub file_name: String,
    pub form_part: String,
    pub rel_path: String,
    pub bytes: Vec<u8>,
}

/// Model of a base-level batch tile.
#[verifier::ext_equal]
pub ghost struct TileUploadView {
    pub z: int,
    pub x: int,
    pub y: int,
    pub file_name: Seq<char>,
    pub form_part: Seq<char>,
    pub rel_path: Seq<char>,
    pub bytes: Seq<u8>,
}

impl View for TileUpload {
    type V = TileUploadView;

    open spec fn view(&self) -> TileUploadView {
        TileUploadView {
            z: self.z as int,
            x: self.x as int,
            y: self.y as int,
            file_name: self.file_name@,
            form_part: self.form_part@,
            rel_path: self.rel_path@,
            bytes: self.bytes@,
        }
    }
}

/// The base zoom level a base tile sits at, and the two levels quartered
/// below it.
pub const BASE_ZOOM: i32 = 11;

/// Pyramid address of the `idx`-th tile of a base-level batch for the
/// base tile `(x, y)`: first the sixteen grandchildren two levels down,
/// grouped by child quadrant, then the four children, then the base tile
/// itself.
pub open spec fn base_coord(x: int, y: int, idx: int) -> (int, int, int) {
    if idx < 16 {
        let i12 = idx / 4;
        let i13 = idx % 4;
        (
            BASE_ZOOM + 2,
            child_x(child_x(x, i12), i13),
            child_y(child_y(y, i12), i13),
        )
    } else if idx < 20 {
        let i = idx - 16;
        (BASE_ZOOM + 1, child_x(x, i), child_y(y, i))
    } else {
        (BASE_ZOOM as int, x, y)
    }
}

/// Quadrant `i` of a raster, at native resolution.
pub open spec fn quad_view(src: RasterView, i: int) -> RasterView {
    view_crop(
        src,
        quad_dx(i) * (src.width / 2),
        quad_dy(i) * (src.height / 2),
        src.width / 2,
        src.height / 2,
    )
}

/// The native-resolution raster the `idx`-th batch tile is downsampled
/// from: a grandchild quadrant, a child quadrant, or the source itself.
pub open spec fn base_quad(src: RasterView, idx: int) -> RasterView {
    if idx < 16 {
        quad_view(quad_view(src, idx / 4), idx % 4)
    } else if idx < 20 {
        quad_view(src, idx - 16)
    } else {
        src
    }
}

/// Everything the contract of a base-level batch says of one tile.
pub open spec fn base_item_ok(
    item: TileUploadView,
    src: RasterView,
    x: int,
    y: int,
    area: Seq<char>,
    idx: int,
) -> bool {
    let (z, xt, yt) = base_coord(x, y, idx);
    &&& item.z == z
    &&& item.x == xt
    &&& item.y == yt
    &&& item.file_name == int_rep(yt) + ".png"@
    &&& item.form_part == int_rep(z) + "_"@ + int_rep(xt) + "_"@ + int_rep(yt)
    &&& item.rel_path == "tiles/"@ + area + "/"@ + int_rep(z) + "/"@ + int_rep(xt) + "/"@
        + int_rep(yt) + ".png"@
    &&& png_pixels_of(item.bytes) == Some(
        (RasterView {
            width: TILE_PIXEL_SIZE as int,
            height: TILE_PIXEL_SIZE as int,
            data: lanczos_resize_of(base_quad(src, idx), TILE_PIXEL_SIZE as int),
        }),
    )
}

/// Downsamples one produced raster to tile size, encodes it, and names
/// it for the batched upload and the on-disk tile layout.
fn make_tile_upload(area_id: &str, z: i32, xt: i32, yt: i32, raster: &Raster) -> (r: TileUpload)
    requires
        raster@.wf(),
        raster@.width > 0,
        raster@.width == raster@.height,
    ensures
        r@.z == z as int,
        r@.x == xt as int,
        r@.y == yt as int,
        r@.file_name == int_rep(yt as int) + ".png"@,
        r@.form_part == int_rep(z as int) + "_"@ + int_rep(xt as int) + "_"@ + int_rep(yt as int),
        r@.rel_path == "tiles/"@ + area_id@ + "/"@ + int_rep(z as int) + "/"@ + int_rep(xt as int)
            + "/"@ + int_rep(yt as int) + ".png"@,
        png_pixels_of(r@.bytes) == Some(
            (RasterView {
                width: TILE_PIXEL_SIZE as int,
                height: TILE_PIXEL_SIZE as int,
                data: lanczos_resize_of(raster@, TILE_PIXEL_SIZE as int),
            }),
        ),
{
    let resized = resize_raster_square(raster, TILE_PIXEL_SIZE);
    let bytes = encode_raster(&resized);
    let zs = i32_to_dec(z);
    let xs = i32_to_dec(xt);
    let ys = i32_to_dec(yt);
    let mut file_name = i32_to_dec(yt);
    file_name.append(".png");
    let mut form_part = i32_to_dec(z);
    form_part.append("_");
    form_part.append(xs.as_str());
    form_part.append("_");
    form_part.append(ys.as_str());
    let mut rel_path = String::from_str("tiles/");
    rel_path.append(area_id);
    rel_path.append("/");
    rel_path.append(zs.as_str());
    rel_path.append("/");
    rel_path.append(xs.as_str());
    rel_path.append("/");
    rel_path.append(ys.as_str());
    rel_path.append(".png");
    TileUpload { z, x: xt, y: yt, file_name, form_part, rel_path, bytes }
}

/// Base-level expansion on an in-memory source image: quarters the base
/// tile into its four children and sixteen grandchildren at native
/// resolution, then downsamples all twenty-one rasters to tile size and
/// names them for one batched upload, in the fixed order grandchildren
/// (grouped by child quadrant), children, base tile. Succeeds exactly
/// when the source decodes to a square between 4 and the largest
/// accepted raster side; nothing else fails it.
pub fn build_base_level_tiles(source: &Vec<u8>, x: i32, y: i32, area_id: &str) -> (r: Result<
    Vec<TileUpload>,
    PyramidError,
>)
    requires
        -0x10000000 <= x <= 0x10000000,
        -0x10000000 <= y <= 0x10000000,
    ensures
        r is Ok <==> (png_pixels_of(source@) is Some && ({
            let v = png_pixels_of(source@).unwrap();
            v.width == v.height && 4 <= v.width <= RASTER_MAX_DIM
        })),
        r == Err::<Vec<TileUpload>, PyramidError>(PyramidError::SourceUndecodable) <==> png_pixels_of(
            source@,
        ) is None,
        r == Err::<Vec<TileUpload>, PyramidError>(PyramidError::SourceShape) <==> (png_pixels_of(
            source@,
        ) is Some && ({
            let v = png_pixels_of(source@).unwrap();
            !(v.width == v.height && 4 <= v.width <= RASTER_MAX_DIM)
        })),
        r is Ok ==> r.unwrap()@.len() == 21 && (forall|idx: int|
            0 <= idx < 21 ==> base_item_ok(
                (#[trigger] r.unwrap()@[idx])@,
                png_pixels_of(source@).unwrap(),
                x as int,
                y as int,
                area_id@,
                idx,
            )),
{
    let src = match png_decode_parts(source) {
        Some((w, h, data)) => {
            if !(w == h && 4 <= w && w <= RASTER_MAX_DIM) {
                return Err(PyramidError::SourceShape);
            }
            match Raster::from_parts(w, h, data) {
                Some(rr) => rr,
                None => {
                    proof {
                        assert(false);
                    }
                    return Err(PyramidError::SourceShape);
                },
            }
        },
        None => {
            return Err(PyramidError::SourceUndecodable);
        },
    };
    let ghost v = png_pixels_of(source@).unwrap();
    let children = src.split_in_four();
    let mut out: Vec<TileUpload> = Vec::new();
    let mut i12: usize = 0;
    while i12 < 4
        invariant
            i12 <= 4,
            out@.len() == 4 * i12,
            src@ == v,
            v.wf(),
            v.width == v.height,
            4 <= v.width <= RASTER_MAX_DIM,
            -0x10000000 <= x <= 0x10000000,
            -0x10000000 <= y <= 0x10000000,
            children@.len() == 4,
            forall|i: int|
                0 <= i < 4 ==> (#[trigger] children@[i])@ == quad_view(v, i)
                    && children@[i]@.wf(),
            forall|idx: int|
                0 <= idx < out@.len() ==> base_item_ok(
                    (#[trigger] out@[idx])@,
                    v,
                    x as int,
                    y as int,
                    area_id@,
                    idx,
                ),
        decreases 4 - i12,
    {
        let x12: i32 = 2 * x + ((i12 % 2) as i32);
        let y12: i32 = 2 * y + ((i12 / 2) as i32);
        proof {
            assert(x12 as int == child_x(x as int, i12 as int));
            assert(y12 as int == child_y(y as int, i12 as int));
        }
        let grandchildren = children[i12].split_in_four();
        let mut i13: usize = 0;
        while i13 < 4
            invariant
                i13 <= 4,
                i12 < 4,
                out@.len() == 4 * i12 + i13,
                src@ == v,
                v.wf(),
                v.width == v.height,
                4 <= v.width <= RASTER_MAX_DIM,
                -0x10000000 <= x <= 0x10000000,
                -0x10000000 <= y <= 0x10000000,
                x12 as int == child_x(x as int, i12 as int),
                y12 as int == child_y(y as int, i12 as int),
                children@.len() == 4,
                forall|i: int|
                    0 <= i < 4 ==> (#[trigger] children@[i])@ == quad_view(v, i)
                        && children@[i]@.wf(),
                grandchildren@.len() == 4,
                forall|i: int|
                    0 <= i < 4 ==> (#[trigger] grandchildren@[i])@ == quad_view(
                        quad_view(v, i12 as int),
                        i,
                    ) && grandchildren@[i]@.wf(),
                forall|idx: int|
                    0 <= idx < out@.len() ==> base_item_ok(
                        (#[trigger] out@[idx])@,
                        v,
                        x as int,
                        y as int,
                        area_id@,
                        idx,
                    ),
            decreases 4 - i13,
        {
            let x13: i32 = 2 * x12 + ((i13 % 2) as i32);
            let y13: i32 = 2 * y12 + ((i13 / 2) as i32);
            proof {
                assert(x13 as int == child_x(x12 as int, i13 as int));
                assert(y13 as int == child_y(y12 as int, i13 as int));
            }
            let item = make_tile_upload(area_id, BASE_ZOOM + 2, x13, y13, &grandchildren[i13]);
            out.push(item);
            proof {
                let idx = 4 * (i12 as int) + i13 as int;
                lemma_fundamental_div_mod_converse(idx, 4, i12 as int, i13 as int);
                assert(base_quad(v, idx) == quad_view(quad_view(v, i12 as int), i13 as int));
                assert(base_item_ok(out@[idx]@, v, x as int, y as int, area_id@, idx));
            }
            i13 = i13 + 1;
        }
        i12 = i12 + 1;
    }
    let mut i: usize = 0;
    while i < 4
        invariant
            i <= 4,
            out@.len() == 16 + i,
            src@ == v,
            v.wf(),
            v.width == v.height,
            4 <= v.width <= RASTER_MAX_DIM,
            -0x10000000 <= x <= 0x10000000,
            -0x10000000 <= y <= 0x10000000,
            children@.len() == 4,
            forall|ii: int|
                0 <= ii < 4 ==> (#[trigger] children@[ii])@ == quad_view(v, ii)
                    && children@[ii]@.wf(),
            forall|idx: int|
                0 <= idx < out@.len() ==> base_item_ok(
                    (#[trigger] out@[idx])@,
                    v,
                    x as int,
                    y as int,
                    area_id@,
                    idx,
                ),
        decreases 4 - i,
    {
        let x12: i32 = 2 * x + ((i % 2) as i32);
        let y12: i32 = 2 * y + ((i / 2) as i32);
        proof {
            assert(x12 as int == child_x(x as int, i as int));
            assert(y12 as int == child_y(y as int, i as int));
        }
        let item = make_tile_upload(area_id, BASE_ZOOM + 1, x12, y12, &children[i]);
        out.push(item);
        proof {
            let idx = 16 + i as int;
            assert(base_quad(v, idx) == quad_view(v, i as int));
            assert(base_item_ok(out@[idx]@, v, x as int, y as int, area_id@, idx));
        }
        i = i + 1;
    }
    let item = make_tile_upload(area_id, BASE_ZOOM, x, y, &src);
    out.push(item);
    proof {
        assert(base_quad(v, 20) == v);
        assert(base_item_ok(out@[20]@, v, x as int, y as int, area_id@, 20));
    }
    Ok(out)
}

} // verus!
