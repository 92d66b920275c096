//! In-memory RGBA rasters and the pixel-exact operations the pyramid
//! builder relies on: filling, cropping a sub-rectangle, and compositing
//! one raster onto another at a pixel offset.

use vstd::prelude::*;
use vstd::arithmetic::div_mod::lemma_fundamental_div_mod_converse;
use vstd::arithmetic::div_mod::lemma_fundamental_div_mod;

verus! {

/// Largest accepted raster side, in pixels. The cap keeps every
/// admitted raster's pixel buffer (four bytes per pixel, at most
/// 256 MiB at this side) well inside the image decoder's default
/// allocation limit, so every encoded raster decodes back.
pub const RASTER_MAX_DIM: u32 = 8192;

/// One RGBA pixel.
#[derive(Clone, Copy, PartialEq, Eq, Structural, Debug)]
pub struct Rgba {
    pub r: u8,
    pub g: u8,
    pub b: u8,
    pub a: u8,
}

/// The fully transparent pixel.
pub open spec fn transparent() -> Rgba {
    Rgba { r: 0, g: 0, b: 0, a: 0 }
}

/// Mathematical model of a raster: dimensions and the row-major RGBA bytes.
#[verifier::ext_equal]
pub ghost struct RasterView {
    pub width: int,
    pub height: int,
    pub data: Seq<u8>,
}

impl RasterView {
    /// Dimensions within range and exactly four bytes per pixel.
    pub open spec fn wf(self) -> bool {
        &&& 0 <= self.width <= RASTER_MAX_DIM
        &&& 0 <= self.height <= RASTER_MAX_DIM
        &&& self.data.len() == 4 * (self.width * self.height)
    }

    /// Whether `(x, y)` addresses a pixel.
    pub open spec fn in_bounds(self, x: int, y: int) -> bool {
        0 <= x < self.width && 0 <= y < self.height
    }

    /// The pixel at `(x, y)`.
    pub open spec fn pix(self, x: int, y: int) -> Rgba {
        let i = 4 * (y * self.width + x);
        Rgba { r: self.data[i], g: self.data[i + 1], b: self.data[i + 2], a: self.data[i + 3] }
    }
}

/// The `cw` by `ch` sub-rectangle of `v` whose top-left corner is `(cx, cy)`.
pub open spec fn view_crop(v: RasterView, cx: int, cy: int, cw: int, ch: int) -> RasterView {
    RasterView {
        width: cw,
        height: ch,
        data: Seq::new(
            (4 * (cw * ch)) as nat,
            |j: int|
                {
                    let k = j / 4;
                    let c = j % 4;
                    let x = k % cw;
                    let y = k / cw;
                    v.data[4 * ((cy + y) * v.width + (cx + x)) + c]
                },
        ),
    }
}

/// `dst` with `src` composited over it, `src`'s top-left corner at `(ox, oy)`.
pub open spec fn view_overlay(dst: RasterView, src: RasterView, ox: int, oy: int) -> RasterView {
    RasterView {
        width: dst.width,
        height: dst.height,
        data: Seq::new(
            (4 * (dst.width * dst.height)) as nat,
            |j: int|
                {
                    let k = j / 4;
                    let c = j % 4;
                    let x = k % dst.width;
                    let y = k / dst.width;
                    if ox <= x < ox + src.width && oy <= y < oy + src.height {
                        src.data[4 * ((y - oy) * src.width + (x - ox)) + c]
                    } else {
                        dst.data[j]
                    }
                },
        ),
    }
}

/// A `w` by `h` raster with every pixel equal to `p`.
pub open spec fn view_filled(w: int, h: int, p: Rgba) -> RasterView {
    RasterView {
        width: w,
        height: h,
        data: Seq::new(
            (4 * (w * h)) as nat,
            |j: int|
                {
                    let c = j % 4;
                    if c == 0 {
                        p.r
                    } else if c == 1 {
                        p.g
                    } else if c == 2 {
                        p.b
                    } else {
                        p.a
                    }
                },
        ),
    }
}

/// Row-major pixel index stays inside the pixel count.
pub proof fn lemma_row_major_bound(x: int, y: int, w: int, h: int)
    requires
        0 <= x < w,
        0 <= y < h,
    ensures
        0 <= y * w + x < w * h,
{
    assert(0 <= y * w + x < w * h) by (nonlinear_arith)
        requires
            0 <= x < w,
            0 <= y < h,
    ;
}

/// An in-memory RGBA raster, four bytes per pixel, rows top to bottom.
pub struct Raster {
    width: u32,
    height: u32,
    pixels: Vec<u8>,
}

impl View for Raster {
    type V = RasterView;

    closed spec fn view(&self) -> RasterView {
        RasterView { width: self.width as int, height: self.height as int, data: self.pixels@ }
    }
}

impl Raster {
    /// Pixel width.
    pub fn width(&self) -> (w: u32)
        ensures
            w as int == self@.width,
    {
        self.width
    }

    /// Pixel height.
    pub fn height(&self) -> (h: u32)
        ensures
            h as int == self@.height,
    {
        self.height
    }

    /// Builds a raster from decoded parts; `None` when the dimensions are
    /// out of range or the byte count is not four per pixel.
    pub fn from_parts(width: u32, height: u32, pixels: Vec<u8>) -> (r: Option<Raster>)
        ensures
            ({
                let ok = width <= RASTER_MAX_DIM && height <= RASTER_MAX_DIM && pixels@.len() == 4 * (
                (width as int) * (height as int));
                &&& r is Some <==> ok
                &&& r is Some ==> r.unwrap()@ == (RasterView {
                    width: width as int,
                    height: height as int,
                    data: pixels@,
                }) && r.unwrap()@.wf()
            }),
    {
        if width > RASTER_MAX_DIM || height > RASTER_MAX_DIM {
            return None;
        }
        proof {
            assert(4 * (width as int) * (height as int) <= 4 * RASTER_MAX_DIM * RASTER_MAX_DIM)
                by (nonlinear_arith)
                requires
                    width <= RASTER_MAX_DIM,
                    height <= RASTER_MAX_DIM,
            ;
            assert(4 * (width as int) * (height as int) == 4 * ((width as int) * (height as int)))
                by (nonlinear_arith);
        }
        let expect: usize = 4 * (width as usize) * (height as usize);
        if pixels.len() != expect {
            return None;
        }
        Some(Raster { width, height, pixels })
    }

    /// The raw row-major RGBA bytes.
    pub fn into_bytes(self) -> (r: Vec<u8>)
        ensures
            r@ == self@.data,
    {
        self.pixels
    }

    /// A borrow of the raw row-major RGBA bytes.
    pub fn as_bytes(&self) -> (r: &Vec<u8>)
        ensures
            r@ == self@.data,
    {
        &self.pixels
    }

    /// The pixel at `(x, y)`.
    pub fn get(&self, x: u32, y: u32) -> (p: Rgba)
        requires
            self@.wf(),
            self@.in_bounds(x as int, y as int),
        ensures
            p == self@.pix(x as int, y as int),
    {
        proof {
            lemma_row_major_bound(x as int, y as int, self@.width, self@.height);
            assert(self@.width * self@.height <= RASTER_MAX_DIM * RASTER_MAX_DIM)
                by (nonlinear_arith)
                requires
                    0 <= self@.width <= RASTER_MAX_DIM,
                    0 <= self@.height <= RASTER_MAX_DIM,
            ;
        }
        let k: usize = (y as usize) * (self.width as usize) + (x as usize);
        let i: usize = 4 * k;
        Rgba {
            r: self.pixels[i],
            g: self.pixels[i + 1],
            b: self.pixels[i + 2],
            a: self.pixels[i + 3],
        }
    }

    /// A `w` by `h` raster with every pixel set to `p`.
    pub fn new_filled(w: u32, h: u32, p: Rgba) -> (r: Raster)
        requires
            w <= RASTER_MAX_DIM,
            h <= RASTER_MAX_DIM,
        ensures
            r@ == view_filled(w as int, h as int, p),
            r@.wf(),
    {
        let ghost target = view_filled(w as int, h as int, p);
        proof {
            assert(w as int * h as int <= RASTER_MAX_DIM * RASTER_MAX_DIM) by (nonlinear_arith)
                requires
                    w <= RASTER_MAX_DIM,
                    h <= RASTER_MAX_DIM,
            ;
        }
        let total: usize = (w as usize) * (h as usize);
        let mut data: Vec<u8> = Vec::new();
        let mut k: usize = 0;
        while k < total
            invariant
                k <= total,
                total == w as int * h as int,
                total <= RASTER_MAX_DIM * RASTER_MAX_DIM,
                target == view_filled(w as int, h as int, p),
                data@.len() == 4 * k,
                forall|j: int| 0 <= j < 4 * k ==> data@[j] == target.data[j],
            decreases total - k,
        {
            data.push(p.r);
            data.push(p.g);
            data.push(p.b);
            data.push(p.a);
            proof {
                let kk = k as int;
                lemma_fundamental_div_mod_converse(4 * kk, 4, kk, 0);
                lemma_fundamental_div_mod_converse(4 * kk + 1, 4, kk, 1);
                lemma_fundamental_div_mod_converse(4 * kk + 2, 4, kk, 2);
                lemma_fundamental_div_mod_converse(4 * kk + 3, 4, kk, 3);
                assert(data@[4 * kk] == p.r && data@[4 * kk + 1] == p.g && data@[4 * kk + 2] == p.b
                    && data@[4 * kk + 3] == p.a);
                assert(target.data[4 * kk] == p.r);
                assert(target.data[4 * kk + 1] == p.g);
                assert(target.data[4 * kk + 2] == p.b);
                assert(target.data[4 * kk + 3] == p.a);
            }
            k = k + 1;
        }
        proof {
            assert(data@ =~= target.data);
        }
        Raster { width: w, height: h, pixels: data }
    }

    /// The `cw` by `ch` sub-rectangle with top-left corner `(cx, cy)`.
    pub fn crop(&self, cx: u32, cy: u32, cw: u32, ch: u32) -> (r: Raster)
        requires
            self@.wf(),
            cx + cw <= self@.width,
            cy + ch <= self@.height,
        ensures
            r@ == view_crop(self@, cx as int, cy as int, cw as int, ch as int),
            r@.wf(),
    {
        let ghost target = view_crop(self@, cx as int, cy as int, cw as int, ch as int);
        proof {
            assert(cw as int * ch as int <= RASTER_MAX_DIM * RASTER_MAX_DIM) by (nonlinear_arith)
                requires
                    cw <= RASTER_MAX_DIM,
                    ch <= RASTER_MAX_DIM,
            ;
        }
        let total: usize = (cw as usize) * (ch as usize);
        let mut data: Vec<u8> = Vec::new();
        let mut k: usize = 0;
        while k < total
            invariant
                k <= total,
                total == cw as int * ch as int,
                total <= RASTER_MAX_DIM * RASTER_MAX_DIM,
                self@.wf(),
                cx + cw <= self@.width,
                cy + ch <= self@.height,
                target == view_crop(self@, cx as int, cy as int, cw as int, ch as int),
                data@.len() == 4 * k,
                forall|j: int| 0 <= j < 4 * k ==> data@[j] == target.data[j],
            decreases total - k,
        {
            proof {
                assert(cw > 0 && ch > 0) by (nonlinear_arith)
                    requires
                        k < total,
                        total == cw as int * ch as int,
                        k >= 0,
                ;
            }
            let x: u32 = (k % (cw as usize)) as u32;
            let y: u32 = (k / (cw as usize)) as u32;
            proof {
                assert((k as int) / (cw as int) < (ch as int)) by (nonlinear_arith)
                    requires
                        0 <= k < cw as int * ch as int,
                        cw > 0,
                ;
                lemma_row_major_bound(
                    cx as int + x as int,
                    cy as int + y as int,
                    self@.width,
                    self@.height,
                );
            }
            let p = self.get(cx + x, cy + y);
            data.push(p.r);
            data.push(p.g);
            data.push(p.b);
            data.push(p.a);
            proof {
                let kk = k as int;
                lemma_fundamental_div_mod_converse(4 * kk, 4, kk, 0);
                lemma_fundamental_div_mod_converse(4 * kk + 1, 4, kk, 1);
                lemma_fundamental_div_mod_converse(4 * kk + 2, 4, kk, 2);
                lemma_fundamental_div_mod_converse(4 * kk + 3, 4, kk, 3);
                assert(data@[4 * kk] == p.r && data@[4 * kk + 1] == p.g && data@[4 * kk + 2] == p.b
                    && data@[4 * kk + 3] == p.a);
                assert(target.data[4 * kk] == p.r);
                assert(target.data[4 * kk + 1] == p.g);
                assert(target.data[4 * kk + 2] == p.b);
                assert(target.data[4 * kk + 3] == p.a);
            }
            k = k + 1;
        }
        proof {
            assert(data@ =~= target.data);
        }
        Raster { width: cw, height: ch, pixels: data }
    }

    /// `self` with `src` composited over it, `src`'s top-left corner at
    /// `(ox, oy)`; every pixel outside that region is unchanged.
    pub fn overlay(&self, src: &Raster, ox: u32, oy: u32) -> (r: Raster)
        requires
            self@.wf(),
            src@.wf(),
            ox + src@.width <= self@.width,
            oy + src@.height <= self@.height,
        ensures
            r@ == view_overlay(self@, src@, ox as int, oy as int),
            r@.wf(),
    {
        let ghost target = view_overlay(self@, src@, ox as int, oy as int);
        let w: u32 = self.width;
        let h: u32 = self.height;
        proof {
            assert(w as int * h as int <= RASTER_MAX_DIM * RASTER_MAX_DIM) by (nonlinear_arith)
                requires
                    w <= RASTER_MAX_DIM,
                    h <= RASTER_MAX_DIM,
            ;
        }
        let total: usize = (w as usize) * (h as usize);
        let mut data: Vec<u8> = Vec::new();
        let mut k: usize = 0;
        while k < total
            invariant
                k <= total,
                total == w as int * h as int,
                total <= RASTER_MAX_DIM * RASTER_MAX_DIM,
                w as int == self@.width,
                h as int == self@.height,
                self@.wf(),
                src@.wf(),
                ox + src@.width <= self@.width,
                oy + src@.height <= self@.height,
                target == view_overlay(self@, src@, ox as int, oy as int),
                data@.len() == 4 * k,
                forall|j: int| 0 <= j < 4 * k ==> data@[j] == target.data[j],
            decreases total - k,
        {
            proof {
                assert(w > 0 && h > 0) by (nonlinear_arith)
                    requires
                        k < total,
                        total == w as int * h as int,
                        k >= 0,
                ;
            }
            let x: u32 = (k % (w as usize)) as u32;
            let y: u32 = (k / (w as usize)) as u32;
            proof {
                assert((k as int) / (w as int) < (h as int)) by (nonlinear_arith)
                    requires
                        0 <= k < w as int * h as int,
                        w > 0,
                ;
            }
            let p: Rgba = if ox <= x && x < ox + src.width && oy <= y && y < oy + src.height {
                src.get(x - ox, y - oy)
            } else {
                self.get(x, y)
            };
            data.push(p.r);
            data.push(p.g);
            data.push(p.b);
            data.push(p.a);
            proof {
                let kk = k as int;
                lemma_fundamental_div_mod_converse(4 * kk, 4, kk, 0);
                lemma_fundamental_div_mod_converse(4 * kk + 1, 4, kk, 1);
                lemma_fundamental_div_mod_converse(4 * kk + 2, 4, kk, 2);
                lemma_fundamental_div_mod_converse(4 * kk + 3, 4, kk, 3);
                lemma_fundamental_div_mod(kk, w as int);
                lemma_row_major_bound(kk % (w as int), kk / (w as int), w as int, h as int);
                assert(data@[4 * kk] == p.r && data@[4 * kk + 1] == p.g && data@[4 * kk + 2] == p.b
                    && data@[4 * kk + 3] == p.a);
                assert(target.data[4 * kk] == p.r);
                assert(target.data[4 * kk + 1] == p.g);
                assert(target.data[4 * kk + 2] == p.b);
                assert(target.data[4 * kk + 3] == p.a);
            }
            k = k + 1;
        }
        proof {
            assert(data@ =~= target.data);
        }
        Raster { width: w, height: h, pixels: data }
    }
}

impl Raster {
    /// The four quadrants of `self` at native resolution, in the order
    /// top-left, top-right, bottom-left, bottom-right. Odd dimensions
    /// round the quadrant size down.
    pub fn split_in_four(&self) -> (r: Vec<Raster>)
        requires
            self@.wf(),
        ensures
            r@.len() == 4,
            forall|i: int|
                0 <= i < 4 ==> (#[trigger] r@[i])@ == view_crop(
                    self@,
                    crate::tiles::quad_dx(i) * (self@.width / 2),
                    crate::tiles::quad_dy(i) * (self@.height / 2),
                    self@.width / 2,
                    self@.height / 2,
                ) && r@[i]@.wf(),
    {
        let hw: u32 = self.width / 2;
        let hh: u32 = self.height / 2;
        let q0 = self.crop(0, 0, hw, hh);
        let q1 = self.crop(hw, 0, hw, hh);
        let q2 = self.crop(0, hh, hw, hh);
        let q3 = self.crop(hw, hh, hw, hh);
        let mut r: Vec<Raster> = Vec::new();
        r.push(q0);
        r.push(q1);
        r.push(q2);
        r.push(q3);
        proof {
            let ghost w2 = self@.width / 2;
            let ghost h2 = self@.height / 2;
            assert(r@[0] == q0 && r@[1] == q1 && r@[2] == q2 && r@[3] == q3);
            assert forall|i: int|
                0 <= i < 4 implies (#[trigger] r@[i])@ == view_crop(
                self@,
                crate::tiles::quad_dx(i) * (self@.width / 2),
                crate::tiles::quad_dy(i) * (self@.height / 2),
                self@.width / 2,
                self@.height / 2,
            ) && r@[i]@.wf() by {
                if i == 0 {
                    assert(crate::tiles::quad_dx(0) == 0 && crate::tiles::quad_dy(0) == 0);
                    assert(0 * w2 == 0 && 0 * h2 == 0);
                    assert(q0@ == view_crop(self@, 0 * w2, 0 * h2, w2, h2));
                } else if i == 1 {
                    assert(crate::tiles::quad_dx(1) == 1 && crate::tiles::quad_dy(1) == 0);
                    assert(1 * w2 == w2 && 0 * h2 == 0);
                    assert(q1@ == view_crop(self@, 1 * w2, 0 * h2, w2, h2));
                } else if i == 2 {
                    assert(crate::tiles::quad_dx(2) == 0 && crate::tiles::quad_dy(2) == 1);
                    assert(0 * w2 == 0 && 1 * h2 == h2);
                    assert(q2@ == view_crop(self@, 0 * w2, 1 * h2, w2, h2));
                } else {
                    assert(crate::tiles::quad_dx(3) == 1 && crate::tiles::quad_dy(3) == 1);
                    assert(1 * w2 == w2 && 1 * h2 == h2);
                    assert(q3@ == view_crop(self@, 1 * w2, 1 * h2, w2, h2));
                }
            }
        }
        r
    }
}

/// Splitting a raster of even dimensions into its four quadrants and
/// compositing them back at their quadrant offsets, over any canvas of the
/// same size, reproduces the raster exactly: no pixel is lost or changed
/// at native resolution.
pub proof fn lemma_split_merge_identity(v: RasterView, base: RasterView)
    requires
        v.wf(),
        base.wf(),
        v.width % 2 == 0,
        v.height % 2 == 0,
        base.width == v.width,
        base.height == v.height,
    ensures
        ({
            let hw = v.width / 2;
            let hh = v.height / 2;
            let q0 = view_crop(v, 0, 0, hw, hh);
            let q1 = view_crop(v, hw, 0, hw, hh);
            let q2 = view_crop(v, 0, hh, hw, hh);
            let q3 = view_crop(v, hw, hh, hw, hh);
            view_overlay(
                view_overlay(view_overlay(view_overlay(base, q0, 0, 0), q1, hw, 0), q2, 0, hh),
                q3,
                hw,
                hh,
            ) == v
        }),
{
    let w = v.width;
    let h = v.height;
    let hw = w / 2;
    let hh = h / 2;
    lemma_fundamental_div_mod(w, 2);
    lemma_fundamental_div_mod(h, 2);
    assert(w == 2 * hw && h == 2 * hh);
    let q0 = view_crop(v, 0, 0, hw, hh);
    let q1 = view_crop(v, hw, 0, hw, hh);
    let q2 = view_crop(v, 0, hh, hw, hh);
    let q3 = view_crop(v, hw, hh, hw, hh);
    let o0 = view_overlay(base, q0, 0, 0);
    let o1 = view_overlay(o0, q1, hw, 0);
    let o2 = view_overlay(o1, q2, 0, hh);
    let o3 = view_overlay(o2, q3, hw, hh);
    assert(w * h >= 0) by (nonlinear_arith)
        requires
            w >= 0,
            h >= 0,
    ;
    assert forall|j: int| 0 <= j < o3.data.len() implies o3.data[j] == v.data[j] by {
        assert(0 <= j < 4 * (w * h));
        assert(w > 0 && h > 0) by (nonlinear_arith)
            requires
                0 <= j < 4 * (w * h),
                w >= 0,
                h >= 0,
        ;
        let k = j / 4;
        let c = j % 4;
        lemma_fundamental_div_mod(j, 4);
        assert(k < w * h);
        let x = k % w;
        let y = k / w;
        lemma_fundamental_div_mod(k, w);
        assert((k / w) < h) by (nonlinear_arith)
            requires
                0 <= k < w * h,
                w > 0,
        ;
        assert(k == y * w + x);
        let qx: int = if x < hw {
            0
        } else {
            1
        };
        let qy: int = if y < hh {
            0
        } else {
            1
        };
        let x1 = x - qx * hw;
        let y1 = y - qy * hh;
        assert(0 <= x1 < hw && 0 <= y1 < hh);
        let k1 = y1 * hw + x1;
        let j1 = 4 * k1 + c;
        lemma_row_major_bound(x1, y1, hw, hh);
        lemma_fundamental_div_mod_converse(j1, 4, k1, c);
        lemma_fundamental_div_mod_converse(k1, hw, y1, x1);
        // the quadrant's byte is the undivided raster's byte
        assert(4 * ((qy * hh + y1) * w + (qx * hw + x1)) + c == j) by (nonlinear_arith)
            requires
                j == 4 * k + c,
                k == y * w + x,
                x1 == x - qx * hw,
                y1 == y - qy * hh,
                w == 2 * hw,
                h == 2 * hh,
        ;
        if qx == 0 && qy == 0 {
            assert(q0.data[j1] == v.data[j]);
            assert(o3.data[j] == o2.data[j]);
            assert(o2.data[j] == o1.data[j]);
            assert(o1.data[j] == o0.data[j]);
            assert(o0.data[j] == q0.data[j1]);
        } else if qx == 1 && qy == 0 {
            assert(q1.data[j1] == v.data[j]);
            assert(o3.data[j] == o2.data[j]);
            assert(o2.data[j] == o1.data[j]);
            assert(o1.data[j] == q1.data[j1]);
        } else if qx == 0 && qy == 1 {
            assert(q2.data[j1] == v.data[j]);
            assert(o3.data[j] == o2.data[j]);
            assert(o2.data[j] == q2.data[j1]);
        } else {
            assert(q3.data[j1] == v.data[j]);
            assert(o3.data[j] == q3.data[j1]);
        }
    }
    assert(o3.data =~= v.data);
    assert(o3 =~= v);
}


/// Every pixel of a filled raster is the fill pixel.
pub proof fn lemma_filled_pix(w: int, h: int, p: Rgba, x: int, y: int)
    requires
        0 <= x < w,
        0 <= y < h,
    ensures
        view_filled(w, h, p).pix(x, y) == p,
{
    let k = y * w + x;
    lemma_row_major_bound(x, y, w, h);
    lemma_fundamental_div_mod_converse(4 * k, 4, k, 0);
    lemma_fundamental_div_mod_converse(4 * k + 1, 4, k, 1);
    lemma_fundamental_div_mod_converse(4 * k + 2, 4, k, 2);
    lemma_fundamental_div_mod_converse(4 * k + 3, 4, k, 3);
}

/// What compositing does to one pixel: inside the placed region the
/// source pixel, outside it the destination pixel, unchanged.
pub proof fn lemma_overlay_pix(dst: RasterView, src: RasterView, ox: int, oy: int, x: int, y: int)
    requires
        0 <= x < dst.width,
        0 <= y < dst.height,
    ensures
        view_overlay(dst, src, ox, oy).pix(x, y) == if ox <= x < ox + src.width && oy <= y < oy
            + src.height {
            src.pix(x - ox, y - oy)
        } else {
            dst.pix(x, y)
        },
{
    let k = y * dst.width + x;
    lemma_row_major_bound(x, y, dst.width, dst.height);
    lemma_fundamental_div_mod_converse(4 * k, 4, k, 0);
    lemma_fundamental_div_mod_converse(4 * k + 1, 4, k, 1);
    lemma_fundamental_div_mod_converse(4 * k + 2, 4, k, 2);
    lemma_fundamental_div_mod_converse(4 * k + 3, 4, k, 3);
    lemma_fundamental_div_mod_converse(k, dst.width, y, x);
}

} // verus!
