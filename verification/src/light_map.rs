//! The light accumulation pass: for every pixel, march from the pixel's
//! surface point toward each live emitter, test occlusion against the
//! terrain field (a soft shadow from the smallest ratio of field clearance
//! to distance traveled) and against the shapes through the hierarchy (a
//! hard shadow), and accumulate the attenuated, albedo-modulated
//! contribution of every light.  A rotating dither tile jitters the march
//! start; the rotation advances exactly once per rendered frame.

use vstd::prelude::*;

verus! {

use crate::mathx::{wrap_spec, sqrt_floor, POINT_LIMIT};
use crate::sdf::SDF;
use crate::shape::{ShapeData, ShapeKind, Point3, ShapeBVHNode};
use crate::light::LightData;
use crate::texture::{Texel, Texture, TEXTURE_LIMIT};
use crate::geometry::{GeometryRenderer, pixel_world, pixel_world_exec,
    JITTER_ONE, VIEW_LIMIT, TRANSLATE_LIMIT};
use crate::bvh;

/// Side length of one dither tile.
pub const DITHER_SIZE: usize = 64;

/// Number of samples along one shadow ray.
pub const MARCH_STEPS: i64 = 8;

/// Full shadow-factor and attenuation scale: 256 means unoccluded.
pub const SHADOW_ONE: i64 = 256;

/// One pre-generated noise tile of the dither pool.
pub struct DitherTile {
    pub values: Vec<u8>,
}

impl DitherTile {
    pub open spec fn wf(self) -> bool {
        self.values@.len() == DITHER_SIZE * DITHER_SIZE
    }
}

/// Does the world point lie over this sphere's footprint?
pub open spec fn in_sphere(c: Point3, r: int, x: int, y: int) -> bool {
    (x - c.x) * (x - c.x) + (y - c.y) * (y - c.y) <= r * r
}

/// Does the world point lie over this shape?  A rounded cone is covered by
/// its two end spheres.
pub open spec fn shape_covers(s: ShapeData, x: int, y: int) -> bool {
    match s.kind {
        ShapeKind::Sphere => in_sphere(s.a, s.ra as int, x, y),
        ShapeKind::RoundedCone => in_sphere(s.a, s.ra as int, x, y)
            || in_sphere(s.b, s.rb as int, x, y),
    }
}

/// Does any shape cover the world point?
pub open spec fn any_cover(shapes: Seq<ShapeData>, x: int, y: int) -> bool {
    exists|i: int| 0 <= i < shapes.len() && shape_covers(#[trigger] shapes[i], x, y)
}

/// The clearance ratio at one march sample: zero inside material or under
/// a shape, otherwise the field clearance scaled against the distance
/// traveled, capped at full brightness.
pub open spec fn march_ratio(v: int, t: int, covered: bool) -> int {
    if covered || v >= 0 {
        0
    } else {
        let q = (0 - v) * 4096 / (if t < 1 { 1 } else { t });
        if q < SHADOW_ONE { q } else { SHADOW_ONE as int }
    }
}

/// The x (or y) world coordinate of march sample `f` of `2048`ths of the
/// way along the wrapped offset `dl`.
pub open spec fn march_coord(w0: int, dl: int, f: int) -> int {
    w0 + dl * f / 2048
}

/// The soft-shadow factor after the first `k` march samples: the smallest
/// clearance ratio seen, starting fully lit.  Sample `k` sits at fraction
/// `(256 k - dither) / 2048` of the way to the light.
pub open spec fn march_shadow(
    sdf: SDF, shapes: Seq<ShapeData>, wx: int, wy: int, dlx: int, dly: int, d: int,
    dither: int, k: int,
) -> int
    decreases k,
{
    if k <= 0 {
        SHADOW_ONE as int
    } else {
        let prev = march_shadow(sdf, shapes, wx, wy, dlx, dly, d, dither, k - 1);
        let f = 256 * k - dither;
        let mx = march_coord(wx, dlx, f);
        let my = march_coord(wy, dly, f);
        let v = sdf.sample_spec(mx, my);
        let t = d * f / 2048;
        let r = march_ratio(v, t, any_cover(shapes, mx, my));
        if r < prev {
            r
        } else {
            prev
        }
    }
}

/// The attenuation-times-shadow factor of one light at one surface point,
/// scaled by `SHADOW_ONE * SHADOW_ONE`: full inside the emitter's own
/// radius, zero at or beyond its range, otherwise a linear falloff times
/// the marched shadow.
pub open spec fn light_factor(
    sdf: SDF, shapes: Seq<ShapeData>, w: int, h: int, wx: int, wy: int, l: LightData,
    dither: int,
) -> int {
    let dlx = wrap_spec(l.x - wx, w);
    let dly = wrap_spec(l.y - wy, h);
    let d = sqrt_floor((dlx * dlx + dly * dly) as nat) as int;
    if d <= l.radius {
        SHADOW_ONE * SHADOW_ONE
    } else if d < l.range {
        let atten = (l.range - d) * SHADOW_ONE / (l.range as int);
        let shadow = march_shadow(sdf, shapes, wx, wy, dlx, dly, d, dither, MARCH_STEPS as int);
        atten * shadow
    } else {
        0
    }
}

/// One channel of one light's contribution: albedo (clamped to a byte)
/// times light color times the factor times the diffuse weight, rescaled.
pub open spec fn contrib_channel(albedo: int, light: int, factor: int, dw: int) -> int {
    let a = if albedo > 0xFF { 0xFF } else { albedo };
    a * light * factor * dw / 0x1_0000_0000
}

/// The diffuse weight of a metallic byte: metallic surfaces lose diffuse
/// light; an out-of-range value counts as fully metallic.
pub open spec fn diffuse_weight(m: int) -> int {
    if m > 0xFF {
        1
    } else {
        256 - m
    }
}

/// The summed contribution of the first `n` lights at one pixel, one
/// channel per component.
pub open spec fn accum_lights(
    sdf: SDF, shapes: Seq<ShapeData>, lights: Seq<LightData>, n: int, w: int, h: int,
    wx: int, wy: int, albedo: Texel, dw: int, dither: int,
) -> (int, int, int)
    decreases n,
{
    if n <= 0 {
        (0, 0, 0)
    } else {
        let prev = accum_lights(sdf, shapes, lights, n - 1, w, h, wx, wy, albedo, dw, dither);
        let l = lights[n - 1];
        let factor = light_factor(sdf, shapes, w, h, wx, wy, l, dither);
        (
            prev.0 + contrib_channel(albedo.r as int, l.red as int, factor, dw),
            prev.1 + contrib_channel(albedo.g as int, l.green as int, factor, dw),
            prev.2 + contrib_channel(albedo.b as int, l.blue as int, factor, dw),
        )
    }
}

/// Caps an accumulated channel at the texel range.
pub open spec fn cap_channel(c: int) -> u32 {
    if c > 0xFFFF_FFFF {
        0xFFFF_FFFFu32
    } else {
        c as u32
    }
}

/// The accumulated light at one pixel.
pub open spec fn light_pixel(
    sdf: SDF, shapes: Seq<ShapeData>, lights: Seq<LightData>, w: int, h: int,
    wx: int, wy: int, albedo: Texel, metallic: int, dither: int,
) -> Texel {
    let sums = accum_lights(
        sdf, shapes, lights, lights.len() as int, w, h, wx, wy, albedo,
        diffuse_weight(metallic), dither,
    );
    Texel { r: cap_channel(sums.0), g: cap_channel(sums.1), b: cap_channel(sums.2) }
}

/// The light accumulation pass: its render-resolution target, the dither
/// pool, and the rotation index.
pub struct LightMapRenderer {
    pub width: usize,
    pub height: usize,
    pub lightmap: Texture,
    pub tiles: Vec<DitherTile>,
    pub blue_noise_index: usize,
}

impl LightMapRenderer {
    pub open spec fn wf(self) -> bool {
        &&& 1 <= self.width <= TEXTURE_LIMIT
        &&& 1 <= self.height <= TEXTURE_LIMIT
        &&& self.lightmap.wf()
        &&& self.lightmap.width == self.width
        &&& self.lightmap.height == self.height
        &&& 1 <= self.tiles@.len() <= 0x1_0000
        &&& forall|i: int| 0 <= i < self.tiles@.len() ==> (#[trigger] self.tiles@[i]).wf()
        &&& self.blue_noise_index < self.tiles@.len()
    }

    /// Creates the pass with the given dither pool and a black target.
    pub fn new(width: usize, height: usize, tiles: Vec<DitherTile>) -> (lm: Self)
        requires
            1 <= width <= TEXTURE_LIMIT,
            1 <= height <= TEXTURE_LIMIT,
            1 <= tiles@.len() <= 0x1_0000,
            forall|i: int| 0 <= i < tiles@.len() ==> (#[trigger] tiles@[i]).wf(),
        ensures
            lm.wf(),
            lm.width == width,
            lm.height == height,
            lm.blue_noise_index == 0,
            lm.tiles == tiles,
    {
        LightMapRenderer {
            width,
            height,
            lightmap: Texture::new_intermediate(width, height),
            tiles,
            blue_noise_index: 0,
        }
    }

    /// Drops the old target and allocates a fresh one at the new render
    /// resolution; the dither pool and rotation survive.
    pub fn resize(&mut self, width: usize, height: usize)
        requires
            old(self).wf(),
            1 <= width <= TEXTURE_LIMIT,
            1 <= height <= TEXTURE_LIMIT,
        ensures
            final(self).wf(),
            final(self).width == width,
            final(self).height == height,
            final(self).blue_noise_index == old(self).blue_noise_index,
            final(self).tiles == old(self).tiles,
    {
        self.width = width;
        self.height = height;
        self.lightmap = Texture::new_intermediate(width, height);
    }
}

/// Whether the world point lies over this shape, by the exact test.
fn shape_covers_exec(s: &ShapeData, x: i64, y: i64) -> (b: bool)
    requires
        s.wf(),
        -POINT_LIMIT - 0x10_0000 <= x <= POINT_LIMIT + 0x10_0000,
        -POINT_LIMIT - 0x10_0000 <= y <= POINT_LIMIT + 0x10_0000,
    ensures
        b == shape_covers(*s, x as int, y as int),
{
    let ina = in_sphere_exec(s.a, s.ra, x, y);
    match s.kind {
        ShapeKind::Sphere => ina,
        ShapeKind::RoundedCone => ina || in_sphere_exec(s.b, s.rb, x, y),
    }
}

/// Whether the world point lies over one sphere's footprint.
fn in_sphere_exec(c: Point3, r: i64, x: i64, y: i64) -> (b: bool)
    requires
        -crate::shape::SHAPE_LIMIT <= c.x <= crate::shape::SHAPE_LIMIT,
        -crate::shape::SHAPE_LIMIT <= c.y <= crate::shape::SHAPE_LIMIT,
        0 <= r <= crate::shape::SHAPE_LIMIT,
        -POINT_LIMIT - 0x10_0000 <= x <= POINT_LIMIT + 0x10_0000,
        -POINT_LIMIT - 0x10_0000 <= y <= POINT_LIMIT + 0x10_0000,
    ensures
        b == in_sphere(c, r as int, x as int, y as int),
{
    let dx = x - c.x;
    let dy = y - c.y;
    if dx > r || dx < -r || dy > r || dy < -r {
        proof {
            assert(dx * dx + dy * dy > r * r) by (nonlinear_arith)
                requires
                    (dx > r || dx < -r || dy > r || dy < -r),
                    0 <= r,
            ;
        }
        return false;
    }
    proof {
        assert(0 <= dx * dx <= 0x100_0000_0000 && 0 <= dy * dy <= 0x100_0000_0000
            && 0 <= r * r <= 0x100_0000_0000) by (nonlinear_arith)
            requires
                -0x10_0000 <= dx <= 0x10_0000,
                -0x10_0000 <= dy <= 0x10_0000,
                0 <= r <= 0x10_0000,
        ;
    }
    dx * dx + dy * dy <= r * r
}

/// Whether any shape covers the world point, answered through the
/// hierarchy: every covering shape's footprint lies inside its leaf box,
/// so the pruned query loses no candidate.
fn any_cover_exec(
    nodes: &Vec<ShapeBVHNode>, shapes: &Vec<ShapeData>, x: i64, y: i64,
) -> (b: bool)
    requires
        bvh::bvh_wf(nodes@, shapes@),
        forall|k: int| 0 <= k < shapes@.len() ==> (#[trigger] shapes@[k]).wf(),
        -POINT_LIMIT - 0x10_0000 <= x <= POINT_LIMIT + 0x10_0000,
        -POINT_LIMIT - 0x10_0000 <= y <= POINT_LIMIT + 0x10_0000,
    ensures
        b == any_cover(shapes@, x as int, y as int),
{
    let hits = bvh::query_xy(nodes, shapes, x, y);
    let mut k: usize = 0;
    while k < hits.len()
        invariant
            forall|q: int| 0 <= q < shapes@.len() ==> (#[trigger] shapes@[q]).wf(),
            forall|v: int| 0 <= v < hits@.len() ==> #[trigger] hits@[v] < shapes@.len(),
            -POINT_LIMIT - 0x10_0000 <= x <= POINT_LIMIT + 0x10_0000,
            -POINT_LIMIT - 0x10_0000 <= y <= POINT_LIMIT + 0x10_0000,
            k <= hits@.len(),
            forall|v: int| 0 <= v < k
                ==> !shape_covers(shapes@[#[trigger] hits@[v] as int], x as int, y as int),
        decreases hits@.len() - k,
    {
        let i = hits[k];
        if shape_covers_exec(&shapes[i], x, y) {
            proof {
                assert(shape_covers(shapes@[i as int], x as int, y as int));
            }
            return true;
        }
        k = k + 1;
    }
    proof {
        if any_cover(shapes@, x as int, y as int) {
            let i = choose|i: int| 0 <= i < shapes@.len()
                && shape_covers(#[trigger] shapes@[i], x as int, y as int);
            lemma_cover_in_box(shapes@[i], x as int, y as int);
            let p = lemma_leaf_for_shape(nodes@, shapes@, i);
            assert(nodes@[p].aabb.contains_xy(x as int, y as int));
            assert(hits@.contains(bvh::leaf_shape(nodes@[p]) as usize));
            let v = choose|v: int| 0 <= v < hits@.len() && hits@[v] == i as usize;
            assert(!shape_covers(shapes@[hits@[v] as int], x as int, y as int));
            assert(false);
        }
    }
    false
}

/// A covering point lies inside the shape's bounding box footprint.
proof fn lemma_cover_in_box(s: ShapeData, x: int, y: int)
    requires
        s.wf(),
        shape_covers(s, x, y),
    ensures
        s.aabb_spec().contains_xy(x, y),
{
    match s.kind {
        ShapeKind::Sphere => {
            lemma_sphere_in_box(s.a, s.ra as int, x, y);
        },
        ShapeKind::RoundedCone => {
            if in_sphere(s.a, s.ra as int, x, y) {
                lemma_sphere_in_box(s.a, s.ra as int, x, y);
            } else {
                lemma_sphere_in_box(s.b, s.rb as int, x, y);
            }
        },
    }
}

/// A point over a sphere's footprint is within the radius on each axis.
proof fn lemma_sphere_in_box(c: Point3, r: int, x: int, y: int)
    requires
        0 <= r,
        in_sphere(c, r, x, y),
    ensures
        c.x - r <= x <= c.x + r,
        c.y - r <= y <= c.y + r,
{
    assert(c.x - r <= x <= c.x + r && c.y - r <= y <= c.y + r) by (nonlinear_arith)
        requires
            0 <= r,
            (x - c.x) * (x - c.x) + (y - c.y) * (y - c.y) <= r * r,
    ;
}

/// In a well-formed hierarchy every shape index has a leaf node.
proof fn lemma_leaf_for_shape(nodes: Seq<ShapeBVHNode>, shapes: Seq<ShapeData>, i: int) -> (p: int)
    requires
        bvh::bvh_wf(nodes, shapes),
        0 <= i < shapes.len(),
    ensures
        0 <= p < nodes.len(),
        bvh::is_leaf(nodes[p]),
        bvh::leaf_shape(nodes[p]) == i,
        nodes[p].aabb == shapes[i].aabb_spec(),
{
    assert(bvh::leaves_of(nodes)[i] == i);
    let p = lemma_leaves_member(nodes, i);
    p
}

/// Every entry of `leaves_of` comes from some leaf node.
proof fn lemma_leaves_member(s: Seq<ShapeBVHNode>, k: int) -> (p: int)
    requires
        0 <= k < bvh::leaves_of(s).len(),
    ensures
        0 <= p < s.len(),
        bvh::is_leaf(s[p]),
        bvh::leaf_shape(s[p]) == bvh::leaves_of(s)[k],
    decreases s.len(),
{
    if bvh::is_leaf(s[0]) {
        if k == 0 {
            0
        } else {
            let q = lemma_leaves_member(s.drop_first(), k - 1);
            q + 1
        }
    } else {
        let q = lemma_leaves_member(s.drop_first(), k);
        q + 1
    }
}


/// Marches the shadow ray: the smallest clearance ratio over the fixed
/// number of samples, with the dither value pulling the samples back by a
/// fraction of one step.
fn march_shadow_exec(
    sdf: &SDF, nodes: &Vec<ShapeBVHNode>, shapes: &Vec<ShapeData>,
    wx: i64, wy: i64, dlx: i64, dly: i64, d: i64, dither: i64,
) -> (r: i64)
    requires
        sdf.wf(),
        bvh::bvh_wf(nodes@, shapes@),
        forall|k: int| 0 <= k < shapes@.len() ==> (#[trigger] shapes@[k]).wf(),
        -0x20_0000_0000 <= wx <= 0x20_0000_0000,
        -0x20_0000_0000 <= wy <= 0x20_0000_0000,
        -0x1000 <= dlx <= 0x1000,
        -0x1000 <= dly <= 0x1000,
        0 <= d <= 0x2000,
        0 <= dither < 0x100,
    ensures
        r == march_shadow(
            *sdf, shapes@, wx as int, wy as int, dlx as int, dly as int, d as int,
            dither as int, MARCH_STEPS as int,
        ),
        0 <= r <= SHADOW_ONE,
{
    let mut cur: i64 = SHADOW_ONE;
    let mut k: i64 = 1;
    while k <= MARCH_STEPS
        invariant
            sdf.wf(),
            bvh::bvh_wf(nodes@, shapes@),
            forall|q: int| 0 <= q < shapes@.len() ==> (#[trigger] shapes@[q]).wf(),
            -0x20_0000_0000 <= wx <= 0x20_0000_0000,
            -0x20_0000_0000 <= wy <= 0x20_0000_0000,
            -0x1000 <= dlx <= 0x1000,
            -0x1000 <= dly <= 0x1000,
            0 <= d <= 0x2000,
            0 <= dither < 0x100,
            1 <= k <= MARCH_STEPS + 1,
            0 <= cur <= SHADOW_ONE,
            cur == march_shadow(
                *sdf, shapes@, wx as int, wy as int, dlx as int, dly as int, d as int,
                dither as int, k - 1,
            ),
        decreases MARCH_STEPS - k + 1,
    {
        let f = 256 * k - dither;
        proof {
            assert(-0x80_0000 <= dlx * f <= 0x80_0000 && -0x80_0000 <= dly * f <= 0x80_0000
                && 0 <= d * f <= 0x100_0000) by (nonlinear_arith)
                requires
                    -0x1000 <= dlx <= 0x1000,
                    -0x1000 <= dly <= 0x1000,
                    0 <= d <= 0x2000,
                    1 <= f <= 0x800,
            ;
            vstd::arithmetic::div_mod::lemma_hoist_over_denominator(dlx * f, 0x1000, 0x800nat);
            vstd::arithmetic::div_mod::lemma_hoist_over_denominator(dly * f, 0x1000, 0x800nat);
            vstd::arithmetic::div_mod::lemma_mod_bound(dlx * f + 0x80_0000, 0x800);
            vstd::arithmetic::div_mod::lemma_mod_bound(dly * f + 0x80_0000, 0x800);
            vstd::arithmetic::div_mod::lemma_fundamental_div_mod(dlx * f + 0x80_0000, 0x800);
            vstd::arithmetic::div_mod::lemma_fundamental_div_mod(dly * f + 0x80_0000, 0x800);
            assert(-0x20_0000_0000 - 0x1000 <= wx + (dlx * f) / 0x800
                && wx + (dlx * f) / 0x800 <= 0x20_0000_0000 + 0x1000);
        }
        let mx = wx + (dlx * f + 0x80_0000) / 0x800 - 0x1000;
        let my = wy + (dly * f + 0x80_0000) / 0x800 - 0x1000;
        proof {
            assert(mx == march_coord(wx as int, dlx as int, f as int));
            assert(my == march_coord(wy as int, dly as int, f as int));
        }
        let v = sdf.sample(mx, my);
        let covered = any_cover_exec(nodes, shapes, mx, my);
        let t = d * f / 0x800;
        let ratio: i64 = if covered || v >= 0 {
            0
        } else {
            let tq = if t < 1 { 1 } else { t };
            proof {
                assert(0 <= (0 - v) * 4096 <= 0x2_0000_0000) by (nonlinear_arith)
                    requires
                        -0x20_0000 <= v < 0,
                ;
            }
            let q = (0 - v) * 4096 / tq;
            proof {
                assert(0 <= q) by (nonlinear_arith)
                    requires
                        0 <= (0 - v) * 4096,
                        1 <= tq,
                        q == (0 - v) * 4096 / (tq as int),
                ;
            }
            if q < SHADOW_ONE { q } else { SHADOW_ONE }
        };
        proof {
            assert(ratio == march_ratio(
                v as int, d as int * f as int / 2048,
                any_cover(shapes@, mx as int, my as int),
            ));
        }
        if ratio < cur {
            cur = ratio;
        }
        k = k + 1;
    }
    cur
}

/// The attenuation-times-shadow factor of one light at one surface point.
fn light_factor_exec(
    sdf: &SDF, nodes: &Vec<ShapeBVHNode>, shapes: &Vec<ShapeData>, l: &LightData,
    wx: i64, wy: i64, dither: i64,
) -> (r: i64)
    requires
        sdf.wf(),
        bvh::bvh_wf(nodes@, shapes@),
        forall|k: int| 0 <= k < shapes@.len() ==> (#[trigger] shapes@[k]).wf(),
        l.wf(),
        -0x20_0000_0000 <= wx <= 0x20_0000_0000,
        -0x20_0000_0000 <= wy <= 0x20_0000_0000,
        0 <= dither < 0x100,
    ensures
        r == light_factor(
            *sdf, shapes@, sdf.width as int, sdf.height as int, wx as int, wy as int, *l,
            dither as int,
        ),
        0 <= r <= SHADOW_ONE * SHADOW_ONE,
{
    let dlx = crate::mathx::wrap_coord(l.x - wx, sdf.width as i64);
    let dly = crate::mathx::wrap_coord(l.y - wy, sdf.height as i64);
    proof {
        assert(0 <= dlx * dlx <= 0x100_0000 && 0 <= dly * dly <= 0x100_0000
            && dlx * dlx + dly * dly <= 0x200_0000) by (nonlinear_arith)
            requires
                -0x1000 <= dlx <= 0x1000,
                -0x1000 <= dly <= 0x1000,
        ;
    }
    let d2 = (dlx * dlx + dly * dly) as u64;
    let dq = crate::mathx::isqrt(d2);
    let d = dq as i64;
    proof {
        assert(0 <= d && d as int * d as int <= d2 as int);
        assert(d <= 0x2000) by (nonlinear_arith)
            requires
                0 <= d,
                d as int * d as int <= d2 as int,
                d2 <= 0x200_0000,
        ;
    }
    if d <= l.radius {
        SHADOW_ONE * SHADOW_ONE
    } else if d < l.range {
        let atten = (l.range - d) * SHADOW_ONE / l.range;
        proof {
            assert(0 <= atten <= SHADOW_ONE) by (nonlinear_arith)
                requires
                    0 <= d < l.range,
                    atten == (l.range - d) * SHADOW_ONE / (l.range as int),
            ;
        }
        let shadow = march_shadow_exec(sdf, nodes, shapes, wx, wy, dlx, dly, d, dither);
        proof {
            assert(0 <= atten * shadow <= SHADOW_ONE * SHADOW_ONE) by (nonlinear_arith)
                requires
                    0 <= atten <= SHADOW_ONE,
                    0 <= shadow <= SHADOW_ONE,
            ;
        }
        let factor = atten * shadow;
        factor
    } else {
        0
    }
}

impl LightMapRenderer {
    /// Runs the light accumulation pass: advances the dither rotation by one,
    /// then fills the lightmap so that every texel equals the `light_pixel`
    /// description at that pixel's jittered world point, with the albedo and
    /// metallic byte read from the geometry targets and the dither value read
    /// from the newly selected tile.
    #[verifier::rlimit(80)]
    pub fn render(
        &mut self,
        sdf: &SDF,
        gd: &GeometryRenderer,
        shapes: &Vec<ShapeData>,
        nodes: &Vec<ShapeBVHNode>,
        lights: &Vec<LightData>,
        tx: i64, ty: i64, vw: i64, vh: i64, jxn: i64, jyn: i64,
    )
        requires
            old(self).wf(),
            sdf.wf(),
            gd.wf(),
            gd.width == old(self).width,
            gd.height == old(self).height,
            bvh::bvh_wf(nodes@, shapes@),
            forall|k: int| 0 <= k < shapes@.len() ==> (#[trigger] shapes@[k]).wf(),
            shapes@.len() <= bvh::MAX_SHAPES,
            forall|k: int| 0 <= k < lights@.len() ==> (#[trigger] lights@[k]).wf(),
            lights@.len() <= crate::light::MAX_LIGHTS,
            -TRANSLATE_LIMIT <= tx <= TRANSLATE_LIMIT,
            -TRANSLATE_LIMIT <= ty <= TRANSLATE_LIMIT,
            1 <= vw <= VIEW_LIMIT,
            1 <= vh <= VIEW_LIMIT,
            0 <= jxn < JITTER_ONE,
            0 <= jyn < JITTER_ONE,
        ensures
            final(self).wf(),
            final(self).width == old(self).width,
            final(self).height == old(self).height,
            final(self).tiles == old(self).tiles,
            final(self).blue_noise_index == (old(self).blue_noise_index + 1) % old(self).tiles@.len() as int,
            forall|j: int| 0 <= j < old(self).width * old(self).height ==> {
                let x = j % old(self).width as int;
                let y = j / old(self).width as int;
                let wx = pixel_world(tx as int, vw as int, old(self).width as int, jxn as int, x);
                let wy = pixel_world(ty as int, vh as int, old(self).height as int, jyn as int, y);
                let dither = old(self).tiles@[
                    (old(self).blue_noise_index + 1) % old(self).tiles@.len() as int
                ].values@[(y % 64) * 64 + x % 64];
                #[trigger] final(self).lightmap.texels@[j] == light_pixel(
                    *sdf, shapes@, lights@, sdf.width as int, sdf.height as int, wx, wy,
                    gd.diffuse.texels@[j], gd.normals_metallic_and_roughness.texels@[j].r as int,
                    dither as int,
                )
            },
    {
        let rw = self.width;
        let rh = self.height;
        self.blue_noise_index = (self.blue_noise_index + 1) % self.tiles.len();
        let tile = &self.tiles[self.blue_noise_index];
        proof {
            assert(rw * rh <= 0x400_0000) by (nonlinear_arith)
                requires
                    rw <= TEXTURE_LIMIT,
                    rh <= TEXTURE_LIMIT,
            ;
        }
        let len = rw * rh;
        let mut texels: Vec<Texel> = Vec::new();
        let mut t: usize = 0;
        while t < len
            invariant
                sdf.wf(),
                gd.wf(),
                gd.width == rw,
                gd.height == rh,
                bvh::bvh_wf(nodes@, shapes@),
                forall|k: int| 0 <= k < shapes@.len() ==> (#[trigger] shapes@[k]).wf(),
                forall|k: int| 0 <= k < lights@.len() ==> (#[trigger] lights@[k]).wf(),
                lights@.len() <= crate::light::MAX_LIGHTS,
                -TRANSLATE_LIMIT <= tx <= TRANSLATE_LIMIT,
                -TRANSLATE_LIMIT <= ty <= TRANSLATE_LIMIT,
                1 <= vw <= VIEW_LIMIT,
                1 <= vh <= VIEW_LIMIT,
                0 <= jxn < JITTER_ONE,
                0 <= jyn < JITTER_ONE,
                1 <= rw <= TEXTURE_LIMIT,
                1 <= rh <= TEXTURE_LIMIT,
                len == rw * rh,
                tile.wf(),
                t <= len,
                texels@.len() == t,
                forall|j: int| 0 <= j < t ==> {
                    let x = j % rw as int;
                    let y = j / rw as int;
                    let wx = pixel_world(tx as int, vw as int, rw as int, jxn as int, x);
                    let wy = pixel_world(ty as int, vh as int, rh as int, jyn as int, y);
                    #[trigger] texels@[j] == light_pixel(
                        *sdf, shapes@, lights@, sdf.width as int, sdf.height as int, wx, wy,
                        gd.diffuse.texels@[j],
                        gd.normals_metallic_and_roughness.texels@[j].r as int,
                        tile.values@[(y % 64) * 64 + x % 64] as int,
                    )
                },
            decreases len - t,
        {
            let x = t % rw;
            let y = t / rw;
            proof {
                assert(y < rh) by (nonlinear_arith)
                    requires
                        t < len,
                        len == rw * rh,
                        y == t as int / rw as int,
                        rw >= 1,
                ;
                assert((y as int % 64) * 64 + x as int % 64 < 4096
                    && 0 <= (y as int % 64) * 64 + x as int % 64) by (nonlinear_arith)
                    requires
                        0 <= x as int % 64 < 64,
                        0 <= y as int % 64 < 64,
                ;
            }
            let wx = pixel_world_exec(tx, vw, rw, jxn, x);
            let wy = pixel_world_exec(ty, vh, rh, jyn, y);
            let albedo = gd.diffuse.get(x, y);
            let m = gd.normals_metallic_and_roughness.get(x, y).r;
            let dw: u64 = if m > 0xFF { 1 } else { (256 - m) as u64 };
            let dither = tile.values[(y % 64) * 64 + x % 64] as i64;
            let ar: u64 = if albedo.r > 0xFF { 0xFF } else { albedo.r as u64 };
            let ag: u64 = if albedo.g > 0xFF { 0xFF } else { albedo.g as u64 };
            let ab: u64 = if albedo.b > 0xFF { 0xFF } else { albedo.b as u64 };
            let mut sr: u64 = 0;
            let mut sg: u64 = 0;
            let mut sb: u64 = 0;
            let mut n: usize = 0;
            while n < lights.len()
                invariant
                    sdf.wf(),
                    bvh::bvh_wf(nodes@, shapes@),
                    forall|q: int| 0 <= q < shapes@.len() ==> (#[trigger] shapes@[q]).wf(),
                    forall|q: int| 0 <= q < lights@.len() ==> (#[trigger] lights@[q]).wf(),
                    lights@.len() <= crate::light::MAX_LIGHTS,
                    -0x20_0000_0000 <= wx <= 0x20_0000_0000,
                    -0x20_0000_0000 <= wy <= 0x20_0000_0000,
                    0 <= dither < 0x100,
                    1 <= dw <= 0x100,
                    ar <= 0xFF,
                    ag <= 0xFF,
                    ab <= 0xFF,
                    ar as int == (if albedo.r > 0xFF { 0xFF } else { albedo.r as int }),
                    ag as int == (if albedo.g > 0xFF { 0xFF } else { albedo.g as int }),
                    ab as int == (if albedo.b > 0xFF { 0xFF } else { albedo.b as int }),
                    dw as int == diffuse_weight(m as int),
                    n <= lights@.len(),
                    sr <= n * 0x100_0000,
                    sg <= n * 0x100_0000,
                    sb <= n * 0x100_0000,
                    (sr as int, sg as int, sb as int) == accum_lights(
                        *sdf, shapes@, lights@, n as int, sdf.width as int, sdf.height as int,
                        wx as int, wy as int, albedo, dw as int, dither as int,
                    ),
                decreases lights@.len() - n,
            {
                let l = &lights[n];
                let factor = light_factor_exec(sdf, nodes, shapes, l, wx, wy, dither) as u64;
                proof {
                    lemma_contrib_bound(ar as int, l.red as int, factor as int, dw as int);
                    lemma_contrib_bound(ag as int, l.green as int, factor as int, dw as int);
                    lemma_contrib_bound(ab as int, l.blue as int, factor as int, dw as int);
                }
                let cr = ar * l.red as u64 * factor * dw / 0x1_0000_0000;
                let cg = ag * l.green as u64 * factor * dw / 0x1_0000_0000;
                let cb = ab * l.blue as u64 * factor * dw / 0x1_0000_0000;
                proof {
                    assert(cr as int == contrib_channel(
                        albedo.r as int, l.red as int, factor as int, dw as int));
                    assert(cg as int == contrib_channel(
                        albedo.g as int, l.green as int, factor as int, dw as int));
                    assert(cb as int == contrib_channel(
                        albedo.b as int, l.blue as int, factor as int, dw as int));
                }
                sr = sr + cr;
                sg = sg + cg;
                sb = sb + cb;
                n = n + 1;
            }
            let out = Texel {
                r: if sr > 0xFFFF_FFFF { 0xFFFF_FFFFu32 } else { sr as u32 },
                g: if sg > 0xFFFF_FFFF { 0xFFFF_FFFFu32 } else { sg as u32 },
                b: if sb > 0xFFFF_FFFF { 0xFFFF_FFFFu32 } else { sb as u32 },
            };
            texels.push(out);
            proof {
                assert(t as int == y as int * rw as int + x as int) by (nonlinear_arith)
                    requires
                        x as int == t as int % rw as int,
                        y as int == t as int / rw as int,
                        1 <= rw as int,
                        0 <= t as int,
                ;
                assert(albedo == gd.diffuse.texels@[t as int]);
                assert(m == gd.normals_metallic_and_roughness.texels@[t as int].r);
                assert(texels@[t as int] == light_pixel(
                    *sdf, shapes@, lights@, sdf.width as int, sdf.height as int,
                    wx as int, wy as int, albedo, m as int, dither as int,
                ));
            }
            t = t + 1;
        }
        self.lightmap = Texture { width: rw, height: rh, texels };
    }
}

/// Bounds and exactness of one channel's worth of contribution product.
proof fn lemma_contrib_bound(a: int, light: int, factor: int, dw: int)
    requires
        0 <= a <= 0xFF,
        0 <= light <= 0x100_0000,
        0 <= factor <= 0x1_0000,
        1 <= dw <= 0x100,
    ensures
        0 <= a * light <= 0x1_0000_0000,
        0 <= a * light * factor <= 0x1_0000_0000_0000,
        0 <= a * light * factor * dw <= 0x100_0000_0000_0000,
        a * light * factor * dw / 0x1_0000_0000 <= 0x100_0000,
{
    assert(0 <= a * light <= 0x1_0000_0000
        && 0 <= a * light * factor <= 0x1_0000_0000_0000
        && 0 <= a * light * factor * dw <= 0x100_0000_0000_0000) by (nonlinear_arith)
        requires
            0 <= a <= 0xFF,
            0 <= light <= 0x100_0000,
            0 <= factor <= 0x1_0000,
            1 <= dw <= 0x100,
    ;
    assert(a * light * factor * dw / 0x1_0000_0000 <= 0x100_0000_0000_0000int / 0x1_0000_0000);
}

} // verus!
