//! The geometry pass: for every pixel of the render resolution, find the
//! nearest visible surface among the terrain and the shape collection, and
//! write its base color, its metallic/roughness pair, and its depth into
//! three render-resolution targets.
//!
//! The terrain is drawn with a pass-through test at a far depth, so it
//! never occludes a shape; shapes use a strict less-than depth test, with
//! the earlier shape keeping a tied depth.  A rounded cone contributes the
//! surfaces of its two end spheres.

use vstd::prelude::*;

verus! {

use crate::mathx::{sqrt_floor, POINT_LIMIT};
use crate::sdf::SDF;
use crate::shape::{ShapeData, ShapeKind, Point3, ShapeBVHNode};
use crate::texture::{Texel, Texture, TEXTURE_LIMIT};

/// One sub-pixel jitter unit: offsets are fractions with this denominator.
pub const JITTER_ONE: i64 = 0x1_0000;

/// The depth written for the terrain background; every shape surface is
/// strictly nearer.
pub const DEPTH_FAR: i64 = 0x4000_0000;

/// Bound on the view window's extent in world units.
pub const VIEW_LIMIT: i64 = 0x10_0000;

/// Bound on the view center's coordinates.
pub const TRANSLATE_LIMIT: i64 = 0x10_0000_0000;

/// The world x coordinate sampled for pixel column `x` of `rw` columns:
/// the view spans `[tx - vw/2, tx + vw/2)`, and the jitter `jn` — already
/// shifted into `[0, JITTER_ONE)`, with `JITTER_ONE / 2` landing on the
/// pixel center — picks the sub-pixel position.
pub open spec fn pixel_world(tx: int, vw: int, rw: int, jn: int, x: int) -> int {
    tx - vw / 2 + (x * JITTER_ONE + jn) * vw / (rw * JITTER_ONE)
}

/// The depth of a sphere's surface under the world point `(wx, wy)`, if
/// the point lies over the sphere at all: the near side of the sphere
/// along the synthetic depth axis.
pub open spec fn sphere_depth(c: Point3, r: int, wx: int, wy: int) -> Option<int> {
    let d2 = (wx - c.x) * (wx - c.x) + (wy - c.y) * (wy - c.y);
    if d2 <= r * r {
        Some(c.z - sqrt_floor((r * r - d2) as nat))
    } else {
        None
    }
}

/// The smaller of two optional depths, the first winning ties.
pub open spec fn min_depth(a: Option<int>, b: Option<int>) -> Option<int> {
    match (a, b) {
        (Some(x), Some(y)) => if y < x { Some(y) } else { Some(x) },
        (Some(x), None) => Some(x),
        (None, y) => y,
    }
}

/// The depth of a shape's surface under `(wx, wy)`: a sphere is itself, a
/// rounded cone contributes its two end spheres.
pub open spec fn shape_depth(s: ShapeData, wx: int, wy: int) -> Option<int> {
    match s.kind {
        ShapeKind::Sphere => sphere_depth(s.a, s.ra as int, wx, wy),
        ShapeKind::RoundedCone => min_depth(
            sphere_depth(s.a, s.ra as int, wx, wy),
            sphere_depth(s.b, s.rb as int, wx, wy),
        ),
    }
}

/// The nearest shape among the first `n`, as `(index, depth)`: a strict
/// less-than depth test, the earlier shape keeping a tie.
pub open spec fn best_shape(shapes: Seq<ShapeData>, n: int, wx: int, wy: int) -> Option<(int, int)>
    decreases n,
{
    if n <= 0 {
        None
    } else {
        let prev = best_shape(shapes, n - 1, wx, wy);
        match shape_depth(shapes[n - 1], wx, wy) {
            Option::None => prev,
            Option::Some(d) => match prev {
                Option::None => Some((n - 1, d)),
                Option::Some((bi, bd)) => if d < bd {
                    Some((n - 1, d))
                } else {
                    prev
                },
            },
        }
    }
}

/// The unpacked base color of a packed RGB word, low byte red.
pub open spec fn unpack_color(c: int) -> Texel {
    Texel {
        r: (c % 0x100) as u32,
        g: (c / 0x100 % 0x100) as u32,
        b: (c / 0x1_0000 % 0x100) as u32,
    }
}

/// The terrain's base color under a field value: solid material is light,
/// carved space is dark.
pub open spec fn terrain_color(v: int) -> Texel {
    if v > 0 {
        Texel { r: 0x80, g: 0x70, b: 0x60 }
    } else {
        Texel { r: 0x20, g: 0x20, b: 0x28 }
    }
}

/// Everything the geometry pass writes for one pixel.
pub open spec fn geometry_pixel(
    sdf: SDF, shapes: Seq<ShapeData>, wx: int, wy: int,
) -> (Texel, Texel, i64) {
    let v = sdf.sample_spec(wx, wy);
    match best_shape(shapes, shapes.len() as int, wx, wy) {
        Option::None => (terrain_color(v), Texel { r: 0, g: 0xFF, b: 0 }, DEPTH_FAR),
        Option::Some((i, d)) => (
            unpack_color(shapes[i].color as int),
            Texel { r: shapes[i].metallic as u32, g: shapes[i].roughness as u32, b: 0 },
            d as i64,
        ),
    }
}

/// The geometry pass and its three render-resolution targets.
pub struct GeometryRenderer {
    pub width: usize,
    pub height: usize,
    pub diffuse: Texture,
    pub normals_metallic_and_roughness: Texture,
    pub depth: Vec<i64>,
}

impl GeometryRenderer {
    pub open spec fn wf(self) -> bool {
        &&& 1 <= self.width <= TEXTURE_LIMIT
        &&& 1 <= self.height <= TEXTURE_LIMIT
        &&& self.diffuse.wf()
        &&& self.diffuse.width == self.width && self.diffuse.height == self.height
        &&& self.normals_metallic_and_roughness.wf()
        &&& self.normals_metallic_and_roughness.width == self.width
        &&& self.normals_metallic_and_roughness.height == self.height
        &&& self.depth@.len() == self.width * self.height
    }

    /// Allocates the three targets at the given render resolution.
    pub fn new(width: usize, height: usize) -> (g: Self)
        requires
            1 <= width <= TEXTURE_LIMIT,
            1 <= height <= TEXTURE_LIMIT,
        ensures
            g.wf(),
            g.width == width,
            g.height == height,
    {
        proof {
            assert(width * height <= 0x400_0000) by (nonlinear_arith)
                requires
                    width <= TEXTURE_LIMIT,
                    height <= TEXTURE_LIMIT,
            ;
        }
        let len = width * height;
        let mut depth: Vec<i64> = Vec::new();
        let mut i: usize = 0;
        while i < len
            invariant
                i <= len,
                depth@.len() == i,
            decreases len - i,
        {
            depth.push(DEPTH_FAR);
            i = i + 1;
        }
        GeometryRenderer {
            width,
            height,
            diffuse: Texture::new_intermediate(width, height),
            normals_metallic_and_roughness: Texture::new_intermediate(width, height),
            depth,
        }
    }

    /// Drops the old targets and allocates fresh ones at the new render
    /// resolution.
    pub fn resize(&mut self, width: usize, height: usize)
        requires
            1 <= width <= TEXTURE_LIMIT,
            1 <= height <= TEXTURE_LIMIT,
        ensures
            final(self).wf(),
            final(self).width == width,
            final(self).height == height,
    {
        *self = GeometryRenderer::new(width, height);
    }
}

/// The depth of a shape under `(wx, wy)`, by the exact footprint test.
fn shape_depth_exec(s: &ShapeData, wx: i64, wy: i64) -> (d: Option<i64>)
    requires
        s.wf(),
        -POINT_LIMIT <= wx <= POINT_LIMIT,
        -POINT_LIMIT <= wy <= POINT_LIMIT,
    ensures
        match d {
            Option::None => shape_depth(*s, wx as int, wy as int) is None,
            Option::Some(v) => shape_depth(*s, wx as int, wy as int) == Some(v as int),
        },
{
    let da = sphere_depth_exec(s.a, s.ra, wx, wy);
    match s.kind {
        ShapeKind::Sphere => da,
        ShapeKind::RoundedCone => {
            let db = sphere_depth_exec(s.b, s.rb, wx, wy);
            match (da, db) {
                (Option::Some(x), Option::Some(y)) => if y < x { Some(y) } else { Some(x) },
                (Option::Some(x), Option::None) => Some(x),
                (Option::None, y) => y,
            }
        },
    }
}

/// The depth of one sphere under `(wx, wy)`.
fn sphere_depth_exec(c: Point3, r: i64, wx: i64, wy: i64) -> (d: Option<i64>)
    requires
        -crate::shape::SHAPE_LIMIT <= c.x <= crate::shape::SHAPE_LIMIT,
        -crate::shape::SHAPE_LIMIT <= c.y <= crate::shape::SHAPE_LIMIT,
        -crate::shape::SHAPE_LIMIT <= c.z <= crate::shape::SHAPE_LIMIT,
        0 <= r <= crate::shape::SHAPE_LIMIT,
        -POINT_LIMIT <= wx <= POINT_LIMIT,
        -POINT_LIMIT <= wy <= POINT_LIMIT,
    ensures
        match d {
            Option::None => sphere_depth(c, r as int, wx as int, wy as int) is None,
            Option::Some(v) => sphere_depth(c, r as int, wx as int, wy as int) == Some(v as int),
        },
{
    let dx = wx - c.x;
    let dy = wy - c.y;
    // The footprint test never needs the exact squared distance once an
    // axis offset alone exceeds the radius, so reject far points before
    // squaring anything large.
    if dx > r || dx < -r || dy > r || dy < -r {
        proof {
            assert(dx * dx + dy * dy > r * r) by (nonlinear_arith)
                requires
                    (dx > r || dx < -r || dy > r || dy < -r),
                    0 <= r,
            ;
        }
        return None;
    }
    proof {
        assert(0 <= dx * dx <= 0x100_0000_0000 && 0 <= dy * dy <= 0x100_0000_0000
            && 0 <= r * r <= 0x100_0000_0000) by (nonlinear_arith)
            requires
                -0x10_0000 <= dx <= 0x10_0000,
                -0x10_0000 <= dy <= 0x10_0000,
                0 <= r <= 0x10_0000,
        ;
    }
    let r2 = r * r;
    let d2 = dx * dx + dy * dy;
    if d2 <= r2 {
        let q = crate::mathx::isqrt((r2 - d2) as u64);
        Some(c.z - q as i64)
    } else {
        None
    }
}

impl GeometryRenderer {
    /// Runs the geometry pass: fills the three targets from the field, the
    /// shape list and its hierarchy, walking the hierarchy once to obtain the
    /// shape order.  Every pixel of every target afterwards equals the
    /// `geometry_pixel` description at that pixel's jittered world point.
    #[verifier::rlimit(80)]
    pub fn render(
        &mut self,
        sdf: &SDF,
        shapes: &Vec<ShapeData>,
        nodes: &Vec<ShapeBVHNode>,
        tx: i64, ty: i64, vw: i64, vh: i64, jxn: i64, jyn: i64,
    )
        requires
            old(self).wf(),
            sdf.wf(),
            forall|k: int| 0 <= k < shapes@.len() ==> (#[trigger] shapes@[k]).wf(),
            shapes@.len() <= crate::bvh::MAX_SHAPES,
            crate::bvh::bvh_wf(nodes@, shapes@),
            -TRANSLATE_LIMIT <= tx <= TRANSLATE_LIMIT,
            -TRANSLATE_LIMIT <= ty <= TRANSLATE_LIMIT,
            1 <= vw <= VIEW_LIMIT,
            1 <= vh <= VIEW_LIMIT,
            0 <= jxn < JITTER_ONE,
            0 <= jyn < JITTER_ONE,
        ensures
            final(self).wf(),
            final(self).width == old(self).width,
            final(self).height == old(self).height,
            forall|j: int| 0 <= j < old(self).width * old(self).height ==> {
                let wx = pixel_world(
                    tx as int, vw as int, old(self).width as int, jxn as int, j % old(self).width as int,
                );
                let wy = pixel_world(
                    ty as int, vh as int, old(self).height as int, jyn as int, j / old(self).width as int,
                );
                let px = geometry_pixel(*sdf, shapes@, wx, wy);
                &&& #[trigger] final(self).diffuse.texels@[j] == px.0
                &&& final(self).normals_metallic_and_roughness.texels@[j] == px.1
                &&& final(self).depth@[j] == px.2
            },
    {
        let rw = self.width;
        let rh = self.height;
        let order = crate::bvh::traverse_all(nodes, shapes);
        proof {
            assert(order@.len() == shapes@.len()) by {
                assert(order@.map_values(|v: usize| v as int).len() == order@.len());
            }
            assert(forall|k: int| 0 <= k < order@.len()
                ==> #[trigger] order@[k] as int == Seq::new(shapes@.len(), |q: int| q)[k]);
        }
        proof {
            assert(rw * rh <= 0x400_0000) by (nonlinear_arith)
                requires
                    rw <= TEXTURE_LIMIT,
                    rh <= TEXTURE_LIMIT,
            ;
        }
        let len = rw * rh;
        let mut diffuse: Vec<Texel> = Vec::new();
        let mut nmr: Vec<Texel> = Vec::new();
        let mut depth: Vec<i64> = Vec::new();
        let mut t: usize = 0;
        while t < len
            invariant
                sdf.wf(),
                forall|k: int| 0 <= k < shapes@.len() ==> (#[trigger] shapes@[k]).wf(),
                shapes@.len() <= crate::bvh::MAX_SHAPES,
                order@.len() == shapes@.len(),
                forall|k: int| 0 <= k < order@.len() ==> #[trigger] order@[k] as int == k,
                -TRANSLATE_LIMIT <= tx <= TRANSLATE_LIMIT,
                -TRANSLATE_LIMIT <= ty <= TRANSLATE_LIMIT,
                1 <= vw <= VIEW_LIMIT,
                1 <= vh <= VIEW_LIMIT,
                0 <= jxn < JITTER_ONE,
                0 <= jyn < JITTER_ONE,
                1 <= rw <= TEXTURE_LIMIT,
                1 <= rh <= TEXTURE_LIMIT,
                len == rw * rh,
                t <= len,
                diffuse@.len() == t,
                nmr@.len() == t,
                depth@.len() == t,
                forall|j: int| 0 <= j < t ==> {
                    let wx = pixel_world(tx as int, vw as int, rw as int, jxn as int, j % rw as int);
                    let wy = pixel_world(ty as int, vh as int, rh as int, jyn as int, j / rw as int);
                    let px = geometry_pixel(*sdf, shapes@, wx, wy);
                    &&& #[trigger] diffuse@[j] == px.0
                    &&& nmr@[j] == px.1
                    &&& depth@[j] == px.2
                },
            decreases len - t,
        {
            let x = t % rw;
            let y = t / rw;
            proof {
                assert(y < rh) by (nonlinear_arith)
                    requires
                        t < len,
                        len == rw * rh,
                        y == t as int / rw as int,
                        rw >= 1,
                ;
            }
            let wx = pixel_world_exec(tx, vw, rw, jxn, x);
            let wy = pixel_world_exec(ty, vh, rh, jyn, y);
            let v = sdf.sample(wx, wy);
            // Fold over the shapes in traversal order, which the hierarchy
            // guarantees is insertion order: strict less-than depth test.
            let mut best: Option<(usize, i64)> = None;
            let mut k: usize = 0;
            while k < order.len()
                invariant
                    forall|q: int| 0 <= q < shapes@.len() ==> (#[trigger] shapes@[q]).wf(),
                    order@.len() == shapes@.len(),
                    forall|q: int| 0 <= q < order@.len() ==> #[trigger] order@[q] as int == q,
                    -POINT_LIMIT <= wx <= POINT_LIMIT,
                    -POINT_LIMIT <= wy <= POINT_LIMIT,
                    k <= order@.len(),
                    match best {
                        Option::None => best_shape(shapes@, k as int, wx as int, wy as int) is None,
                        Option::Some((bi, bd)) => bi < shapes@.len()
                            && best_shape(shapes@, k as int, wx as int, wy as int)
                                == Some((bi as int, bd as int)),
                    },
                decreases order@.len() - k,
            {
                let i = order[k];
                assert(i as int == k as int);
                let d = shape_depth_exec(&shapes[i], wx, wy);
                match d {
                    Option::None => {},
                    Option::Some(dv) => {
                        match best {
                            Option::None => { best = Some((i, dv)); },
                            Option::Some((_bi, bd)) => {
                                if dv < bd {
                                    best = Some((i, dv));
                                }
                            },
                        }
                    },
                }
                k = k + 1;
            }
            let ghost px = geometry_pixel(*sdf, shapes@, wx as int, wy as int);
            match best {
                Option::None => {
                    diffuse.push(if v > 0 {
                        Texel { r: 0x80, g: 0x70, b: 0x60 }
                    } else {
                        Texel { r: 0x20, g: 0x20, b: 0x28 }
                    });
                    nmr.push(Texel { r: 0, g: 0xFF, b: 0 });
                    depth.push(DEPTH_FAR);
                    proof {
                        assert(diffuse@[t as int] == px.0);
                        assert(nmr@[t as int] == px.1);
                        assert(depth@[t as int] == px.2);
                    }
                },
                Option::Some((bi, bd)) => {
                    let s = &shapes[bi];
                    let c = s.color;
                    diffuse.push(Texel {
                        r: c % 0x100,
                        g: c / 0x100 % 0x100,
                        b: c / 0x1_0000 % 0x100,
                    });
                    nmr.push(Texel { r: s.metallic as u32, g: s.roughness as u32, b: 0 });
                    depth.push(bd);
                    proof {
                        assert(diffuse@[t as int] == px.0);
                        assert(nmr@[t as int] == px.1);
                        assert(depth@[t as int] == px.2);
                    }
                },
            }
            proof {
                assert(t as int % rw as int == x as int && t as int / rw as int == y as int);
            }
            t = t + 1;
        }
        self.diffuse = Texture { width: rw, height: rh, texels: diffuse };
        self.normals_metallic_and_roughness = Texture { width: rw, height: rh, texels: nmr };
        self.depth = depth;
    }
}

/// Computes the world coordinate sampled for one pixel on one axis.
pub fn pixel_world_exec(tr: i64, vs: i64, rs: usize, jn: i64, p: usize) -> (w: i64)
    requires
        -TRANSLATE_LIMIT <= tr <= TRANSLATE_LIMIT,
        1 <= vs <= VIEW_LIMIT,
        1 <= rs <= TEXTURE_LIMIT,
        0 <= jn < JITTER_ONE,
        p < rs,
    ensures
        w == pixel_world(tr as int, vs as int, rs as int, jn as int, p as int),
        -0x20_0000_0000 <= w <= 0x20_0000_0000,
        -POINT_LIMIT <= w <= POINT_LIMIT,
{
    let num = (p as i64) * JITTER_ONE + jn;
    proof {
        assert(0 <= num * vs <= 0x2000_0000 * 0x10_0000) by (nonlinear_arith)
            requires
                0 <= num <= 0x2000_0000,
                1 <= vs <= 0x10_0000,
        ;
        assert(0 < (rs as i64) * JITTER_ONE <= 0x2000_0000) by (nonlinear_arith)
            requires
                1 <= rs as i64 <= 0x2000,
            ;
    }
    let off = num * vs / ((rs as i64) * JITTER_ONE);
    proof {
        assert(num <= (rs as i64) * JITTER_ONE) by (nonlinear_arith)
            requires
                num == (p as i64) * JITTER_ONE + jn,
                p as i64 + 1 <= rs as i64,
                0 <= jn < JITTER_ONE,
        ;
        assert(0 <= off <= vs) by (nonlinear_arith)
            requires
                0 <= num,
                0 < vs,
                0 < (rs as i64) * JITTER_ONE,
                num <= (rs as i64) * JITTER_ONE,
                off == num * vs / ((rs as i64) * JITTER_ONE),
        ;
    }
    tr - vs / 2 + off
}

} // verus!
