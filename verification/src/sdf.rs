//! The sculptable terrain: a toroidally wrapped grid of signed distances.
//!
//! Positive values are solid material; carving drives values down through
//! zero, filling drives them back up.  Every edit reads the current buffer
//! and writes the other one, so a stamp that overlaps itself can never see
//! its own output; after the edit the buffers swap roles.

use vstd::prelude::*;

verus! {

use crate::mathx::{
    wrap_spec, valid_world, sqrt_floor, clamp_spec, wrap_coord, isqrt,
    POINT_LIMIT,
};

/// Upper bound on either grid dimension.
pub const GRID_LIMIT: usize = 8192;

/// Upper bound on the stamp radius and smoothness margin, and on the
/// magnitude of every stored field value.
pub const RADIUS_LIMIT: i64 = 0x10_0000;

/// Field values never leave `[-VALUE_LIMIT, VALUE_LIMIT]`.
pub const VALUE_LIMIT: i64 = 0x20_0000;

/// Which edit an `edit` call performs.
pub enum EditKind {
    Add,
    Subtract,
}

/// The world-space x coordinate of the texel column `x` on a grid `w` wide.
pub open spec fn texel_world(x: int, w: int) -> int {
    x - w / 2
}

/// Squared toroidal distance between texel `(x, y)` and the world point
/// `(px, py)`: each axis delta is wrapped to its smallest representative.
pub open spec fn texel_dist2(x: int, y: int, px: int, py: int, w: int, h: int) -> int {
    let dx = wrap_spec(texel_world(x, w) - px, w);
    let dy = wrap_spec(texel_world(y, h) - py, h);
    dx * dx + dy * dy
}

/// Toroidal distance (floor of the Euclidean distance) between a texel and
/// the edit point.
pub open spec fn texel_dist(x: int, y: int, px: int, py: int, w: int, h: int) -> int {
    sqrt_floor(texel_dist2(x, y, px, py, w, h) as nat) as int
}

/// One texel of a carving edit: inside the stamp's reach the value drops to
/// the stamp's signed distance if that is lower (union of carved space).
pub open spec fn carve_value(old_v: int, dist: int, radius: int, reach: int) -> int {
    if dist <= reach {
        if old_v <= dist - radius {
            old_v
        } else {
            dist - radius
        }
    } else {
        old_v
    }
}

/// One texel of a filling edit: inside the stamp's reach the value rises to
/// the negated stamp distance if that is higher (difference with the stamp).
pub open spec fn fill_value(old_v: int, dist: int, radius: int, reach: int) -> int {
    if dist <= reach {
        if old_v >= radius - dist {
            old_v
        } else {
            radius - dist
        }
    } else {
        old_v
    }
}

/// The whole grid after one edit of the given kind; texel `t` sits at
/// column `t % w`, row `t / w`.
pub open spec fn edit_grid(
    vals: Seq<i64>, px: int, py: int, radius: int, reach: int, w: int, h: int, carve: bool,
) -> Seq<i64> {
    Seq::new(
        vals.len(),
        |t: int|
            {
                let d = texel_dist(t % w, t / w, px, py, w, h);
                if carve {
                    carve_value(vals[t] as int, d, radius, reach) as i64
                } else {
                    fill_value(vals[t] as int, d, radius, reach) as i64
                }
            },
    )
}

/// The initial field value: strictly greater than the world diagonal, so
/// the whole world starts solid with no carved cavity anywhere.
pub open spec fn solid_value(w: int, h: int) -> int {
    sqrt_floor((w * w + h * h) as nat) as int + 1
}

/// The sculptable signed-distance terrain with its two ping-pong buffers.
/// `texture_index` names the buffer holding the current state; the other
/// buffer holds the state before the latest edit.
pub struct SDF {
    pub width: usize,
    pub height: usize,
    pub tex0: Vec<i64>,
    pub tex1: Vec<i64>,
    pub texture_index: usize,
}

impl SDF {
    /// The current field contents, texel row-major.
    pub open spec fn values(self) -> Seq<i64> {
        if self.texture_index == 0 {
            self.tex0@
        } else {
            self.tex1@
        }
    }

    /// The contents before the latest edit (the buffer an edit reads).
    pub open spec fn prev_values(self) -> Seq<i64> {
        if self.texture_index == 0 {
            self.tex1@
        } else {
            self.tex0@
        }
    }

    pub open spec fn wf(self) -> bool {
        &&& valid_world(self.width as int)
        &&& valid_world(self.height as int)
        &&& self.width <= GRID_LIMIT
        &&& self.height <= GRID_LIMIT
        &&& self.texture_index <= 1
        &&& self.tex0@.len() == self.width * self.height
        &&& self.tex1@.len() == self.width * self.height
        &&& forall|t: int| 0 <= t < self.tex0@.len() ==>
            -VALUE_LIMIT <= #[trigger] self.tex0@[t] <= VALUE_LIMIT
        &&& forall|t: int| 0 <= t < self.tex1@.len() ==>
            -VALUE_LIMIT <= #[trigger] self.tex1@[t] <= VALUE_LIMIT
    }

    /// The field value at the texel containing the (wrapped) world point.
    pub open spec fn sample_spec(self, px: int, py: int) -> int {
        let x = wrap_spec(px, self.width as int) + self.width as int / 2;
        let y = wrap_spec(py, self.height as int) + self.height as int / 2;
        self.values()[y * self.width as int + x] as int
    }

    /// Creates a field of the given size, solid everywhere: every texel
    /// starts at a constant strictly greater than the world diagonal.
    pub fn new(width: usize, height: usize) -> (sdf: Self)
        requires
            valid_world(width as int),
            valid_world(height as int),
            width <= GRID_LIMIT,
            height <= GRID_LIMIT,
        ensures
            sdf.wf(),
            sdf.width == width,
            sdf.height == height,
            sdf.texture_index == 0,
            sdf.values().len() == width * height,
            forall|t: int| 0 <= t < sdf.values().len() ==>
                #[trigger] sdf.values()[t] == solid_value(width as int, height as int),
    {
        proof {
            assert(width * height <= 0x400_0000
                && width as int * width as int + height as int * height as int <= 0x800_0000)
                by (nonlinear_arith)
                requires
                    width <= 8192,
                    height <= 8192,
            ;
        }
        let len = width * height;
        let w64 = width as u64;
        let h64 = height as u64;
        let solid = isqrt(w64 * w64 + h64 * h64) + 1;
        proof {
            crate::mathx::lemma_sqrt_floor_monotone(
                (w64 * w64 + h64 * h64) as nat,
                0x4000_0000nat,
            );
            assert(0x8000 * 0x8000 == 0x4000_0000 && 0x4000_0000 < 0x8001 * 0x8001)
                by (nonlinear_arith);
            crate::mathx::lemma_sqrt_floor_unique(0x4000_0000nat, 0x8000nat);
        }
        let mut tex0: Vec<i64> = Vec::new();
        let mut t: usize = 0;
        while t < len
            invariant
                t <= len,
                tex0@.len() == t,
                solid == solid_value(width as int, height as int),
                0 < solid <= 0x8001,
                forall|j: int| 0 <= j < t ==> #[trigger] tex0@[j] == solid as i64,
            decreases len - t,
        {
            tex0.push(solid as i64);
            t = t + 1;
        }
        let tex1 = tex0.clone();
        SDF { width, height, tex0, tex1, texture_index: 0 }
    }

    /// Carves material away around `(px, py)`: within the stamp's reach the
    /// field drops to `min(old, dist - radius)`, where both the radius and
    /// the smoothness margin are a quarter of the cursor size.  Writes the
    /// other buffer and swaps, leaving the pre-edit state readable.
    pub fn add(&mut self, px: i64, py: i64, cursor_size: i64)
        requires
            old(self).wf(),
            -POINT_LIMIT <= px <= POINT_LIMIT,
            -POINT_LIMIT <= py <= POINT_LIMIT,
            0 <= cursor_size <= RADIUS_LIMIT,
        ensures
            final(self).wf(),
            final(self).width == old(self).width,
            final(self).height == old(self).height,
            final(self).texture_index == 1 - old(self).texture_index,
            final(self).prev_values() == old(self).values(),
            final(self).values() == edit_grid(
                old(self).values(), px as int, py as int,
                cursor_size as int / 4, 2 * (cursor_size as int / 4),
                old(self).width as int, old(self).height as int, true,
            ),
            forall|t: int| 0 <= t < final(self).values().len() ==>
                #[trigger] final(self).values()[t] <= old(self).values()[t],
    {
        let radius = cursor_size / 4;
        let reach = radius + radius;
        self.apply_stamp(px, py, radius, reach, true);
    }

    /// Restores material around `(px, py)`: within the stamp's reach the
    /// field rises to `max(old, radius - dist)` — the inverse combine of
    /// `add`, with the same buffer swap discipline.
    pub fn subtract(&mut self, px: i64, py: i64, cursor_size: i64)
        requires
            old(self).wf(),
            -POINT_LIMIT <= px <= POINT_LIMIT,
            -POINT_LIMIT <= py <= POINT_LIMIT,
            0 <= cursor_size <= RADIUS_LIMIT,
        ensures
            final(self).wf(),
            final(self).width == old(self).width,
            final(self).height == old(self).height,
            final(self).texture_index == 1 - old(self).texture_index,
            final(self).prev_values() == old(self).values(),
            final(self).values() == edit_grid(
                old(self).values(), px as int, py as int,
                cursor_size as int / 4, 2 * (cursor_size as int / 4),
                old(self).width as int, old(self).height as int, false,
            ),
            forall|t: int| 0 <= t < final(self).values().len() ==>
                #[trigger] final(self).values()[t] >= old(self).values()[t],
    {
        let radius = cursor_size / 4;
        let reach = radius + radius;
        self.apply_stamp(px, py, radius, reach, false);
    }

    /// Dispatches one edit command.
    pub fn edit(&mut self, kind: EditKind, px: i64, py: i64, cursor_size: i64)
        requires
            old(self).wf(),
            -POINT_LIMIT <= px <= POINT_LIMIT,
            -POINT_LIMIT <= py <= POINT_LIMIT,
            0 <= cursor_size <= RADIUS_LIMIT,
        ensures
            final(self).wf(),
            final(self).width == old(self).width,
            final(self).height == old(self).height,
            final(self).values() == edit_grid(
                old(self).values(), px as int, py as int,
                cursor_size as int / 4, 2 * (cursor_size as int / 4),
                old(self).width as int, old(self).height as int,
                kind is Add,
            ),
    {
        match kind {
            EditKind::Add => self.add(px, py, cursor_size),
            EditKind::Subtract => self.subtract(px, py, cursor_size),
        }
    }

    /// Shared body of the two edits: computes the stamped grid into the
    /// idle buffer, then swaps the buffer roles.
    fn apply_stamp(&mut self, px: i64, py: i64, radius: i64, reach: i64, carve: bool)
        requires
            old(self).wf(),
            -POINT_LIMIT <= px <= POINT_LIMIT,
            -POINT_LIMIT <= py <= POINT_LIMIT,
            0 <= radius <= reach <= RADIUS_LIMIT,
        ensures
            final(self).wf(),
            final(self).width == old(self).width,
            final(self).height == old(self).height,
            final(self).texture_index == 1 - old(self).texture_index,
            final(self).prev_values() == old(self).values(),
            final(self).values() == edit_grid(
                old(self).values(), px as int, py as int, radius as int, reach as int,
                old(self).width as int, old(self).height as int, carve,
            ),
            forall|t: int| 0 <= t < final(self).values().len() ==>
                (if carve {
                    #[trigger] final(self).values()[t] <= old(self).values()[t]
                } else {
                    final(self).values()[t] >= old(self).values()[t]
                }),
    {
        let w = self.width;
        let h = self.height;
        let len = if self.texture_index == 0 { self.tex0.len() } else { self.tex1.len() };
        let ghost src = self.values();
        let ghost target = edit_grid(
            src, px as int, py as int, radius as int, reach as int, w as int, h as int, carve,
        );
        let mut out: Vec<i64> = Vec::new();
        let mut t: usize = 0;
        while t < len
            invariant
                self == old(self),
                self.wf(),
                w == self.width,
                h == self.height,
                src == self.values(),
                len == src.len(),
                target == edit_grid(
                    src, px as int, py as int, radius as int, reach as int,
                    w as int, h as int, carve,
                ),
                -POINT_LIMIT <= px <= POINT_LIMIT,
                -POINT_LIMIT <= py <= POINT_LIMIT,
                0 <= radius <= reach <= RADIUS_LIMIT,
                t <= len,
                out@.len() == t,
                forall|j: int| 0 <= j < t ==> #[trigger] out@[j] == target[j],
                forall|j: int| 0 <= j < t ==>
                    (if carve {
                        #[trigger] out@[j] <= src[j]
                    } else {
                        out@[j] >= src[j]
                    }),
                forall|j: int| 0 <= j < t ==> -VALUE_LIMIT <= #[trigger] out@[j] <= VALUE_LIMIT,
            decreases len - t,
        {
            let x = t % w;
            let y = t / w;
            proof {
                assert(y < h) by (nonlinear_arith)
                    requires
                        t < len,
                        len == w * h,
                        y == t as int / w as int,
                        w >= 1,
                ;
            }
            let tx = x as i64 - (w as i64) / 2;
            let ty = y as i64 - (h as i64) / 2;
            let dx = wrap_coord(tx - px, w as i64);
            let dy = wrap_coord(ty - py, h as i64);
            proof {
                assert(0 <= dx * dx <= 0x1_0000_0000
                    && 0 <= dy * dy <= 0x1_0000_0000) by (nonlinear_arith)
                    requires
                        -0x1_0000 <= dx <= 0x1_0000,
                        -0x1_0000 <= dy <= 0x1_0000,
                ;
            }
            let d2 = (dx * dx + dy * dy) as u64;
            let dq = isqrt(d2);
            let dist = dq as i64;
            assert(0 <= dist && dist as int * dist as int <= d2 as int);
            assert(dist <= 0x2_0000) by (nonlinear_arith)
                requires
                    0 <= dist,
                    dist as int * dist as int <= d2 as int,
                    d2 <= 0x2_0000_0000,
            ;
            let old_v = if self.texture_index == 0 { self.tex0[t] } else { self.tex1[t] };
            let new_v = if dist <= reach {
                if carve {
                    let stamp = dist - radius;
                    if old_v <= stamp { old_v } else { stamp }
                } else {
                    let stamp = radius - dist;
                    if old_v >= stamp { old_v } else { stamp }
                }
            } else {
                old_v
            };
            proof {
                assert(target[t as int] == (if carve {
                    carve_value(src[t as int] as int, dist as int, radius as int, reach as int) as i64
                } else {
                    fill_value(src[t as int] as int, dist as int, radius as int, reach as int) as i64
                })) by {
                    assert(t as int % w as int == x as int);
                    assert(t as int / w as int == y as int);
                    assert(texel_dist(x as int, y as int, px as int, py as int, w as int, h as int)
                        == dist as int) by {
                        assert(texel_dist2(
                            x as int, y as int, px as int, py as int, w as int, h as int,
                        ) == d2 as int);
                        crate::mathx::lemma_sqrt_floor_unique(d2 as nat, dq as nat);
                    }
                }
            }
            out.push(new_v);
            t = t + 1;
        }
        proof {
            assert(out@ =~= target);
        }
        if self.texture_index == 0 {
            self.tex1 = out;
            self.texture_index = 1;
        } else {
            self.tex0 = out;
            self.texture_index = 0;
        }
    }

    /// Reads the field at a world point: the point is wrapped into the
    /// world window and the containing texel's value is returned.  At
    /// whole-unit coordinates — the only ones this integer model takes —
    /// bilinear filtering between texel centers degenerates to exactly
    /// this texel read.
    pub fn sample(&self, px: i64, py: i64) -> (v: i64)
        requires
            self.wf(),
            -POINT_LIMIT <= px <= POINT_LIMIT,
            -POINT_LIMIT <= py <= POINT_LIMIT,
        ensures
            v == self.sample_spec(px as int, py as int),
            -VALUE_LIMIT <= v <= VALUE_LIMIT,
    {
        let x = wrap_coord(px, self.width as i64) + (self.width as i64) / 2;
        let y = wrap_coord(py, self.height as i64) + (self.height as i64) / 2;
        proof {
            assert(0 <= x < self.width);
            assert(0 <= y < self.height);
            assert(y * self.width as int + x < self.width * self.height
                && self.width * self.height <= 0x400_0000) by (nonlinear_arith)
                requires
                    0 <= x < self.width as int,
                    0 <= y < self.height as int,
                    self.width <= 8192,
                    self.height <= 8192,
            ;
            assert(0 <= y * self.width as int + x) by (nonlinear_arith)
                requires
                    0 <= x,
                    0 <= y,
                    self.width as int >= 0,
            ;
        }
        let t = (y as usize) * self.width + (x as usize);
        if self.texture_index == 0 { self.tex0[t] } else { self.tex1[t] }
    }
}

/// Carving never raises a texel and filling never lowers one, and a carve
/// followed by a fill with the same stamp restores every texel whose prior
/// value the stamp could represent: outside the reach the texel is
/// untouched, and inside it the round trip is exactly a clamp of the prior
/// value to the stamp's band `[-(dist - radius), dist - radius]`.
pub proof fn lemma_edit_round_trip(old_v: int, dist: int, radius: int, reach: int)
    requires
        0 <= radius <= reach,
        0 <= dist,
    ensures
        carve_value(old_v, dist, radius, reach) <= old_v,
        fill_value(old_v, dist, radius, reach) >= old_v,
        dist > reach ==> fill_value(
            carve_value(old_v, dist, radius, reach), dist, radius, reach,
        ) == old_v,
        dist <= reach && radius <= dist ==> fill_value(
            carve_value(old_v, dist, radius, reach), dist, radius, reach,
        ) == clamp_spec(old_v, radius - dist, dist - radius),
        dist <= reach && dist < radius ==> fill_value(
            carve_value(old_v, dist, radius, reach), dist, radius, reach,
        ) == radius - dist,
        dist <= reach && radius - dist <= old_v <= dist - radius ==> fill_value(
            carve_value(old_v, dist, radius, reach), dist, radius, reach,
        ) == old_v,
{
}


/// A carve followed by a fill with the same stamp, over whole grids: a
/// texel out of the stamp's reach is exactly restored; one within reach is
/// restored exactly whenever its prior value lay inside the stamp's band
/// `[radius - dist, dist - radius]`, and otherwise ends clamped to that
/// band (or at `radius - dist` inside the disc).
pub proof fn lemma_grid_round_trip(
    vals: Seq<i64>, px: int, py: int, radius: int, reach: int, w: int, h: int, t: int,
)
    requires
        0 <= radius <= reach <= RADIUS_LIMIT,
        valid_world(w),
        valid_world(h),
        0 <= t < vals.len(),
    ensures
        ({
            let carved = edit_grid(vals, px, py, radius, reach, w, h, true);
            let after = edit_grid(carved, px, py, radius, reach, w, h, false);
            let d = texel_dist(t % w, t / w, px, py, w, h);
            &&& after.len() == vals.len()
            &&& (d > reach ==> after[t] == vals[t])
            &&& (d <= reach && radius <= d && radius - d <= vals[t] <= d - radius
                ==> after[t] == vals[t])
            &&& (d <= reach && radius <= d
                ==> after[t] as int == clamp_spec(vals[t] as int, radius - d, d - radius))
            &&& (d <= reach && d < radius ==> after[t] as int == radius - d)
        }),
{
    let carved = edit_grid(vals, px, py, radius, reach, w, h, true);
    let after = edit_grid(carved, px, py, radius, reach, w, h, false);
    let d = texel_dist(t % w, t / w, px, py, w, h);
    let dx = wrap_spec(texel_world(t % w, w) - px, w);
    let dy = wrap_spec(texel_world(t / w, h) - py, h);
    crate::mathx::lemma_wrap_properties(texel_world(t % w, w) - px, w);
    crate::mathx::lemma_wrap_properties(texel_world(t / w, h) - py, h);
    assert(0 <= dx * dx + dy * dy <= 0x100_0000_0000) by (nonlinear_arith)
        requires
            -0x8_0000 <= dx <= 0x8_0000,
            -0x8_0000 <= dy <= 0x8_0000,
    ;
    crate::mathx::lemma_sqrt_floor_monotone((dx * dx + dy * dy) as nat, 0x100_0000_0000nat);
    assert(0x10_0000 * 0x10_0000 == 0x100_0000_0000
        && 0x100_0000_0000 < 0x10_0001 * 0x10_0001) by (nonlinear_arith);
    crate::mathx::lemma_sqrt_floor_unique(0x100_0000_0000nat, 0x10_0000nat);
    assert(0 <= d <= 0x10_0000);
    assert(carved[t] as int == carve_value(vals[t] as int, d, radius, reach));
    assert(after[t] as int == fill_value(carved[t] as int, d, radius, reach));
    lemma_edit_round_trip(vals[t] as int, d, radius, reach);
}

} // verus!
