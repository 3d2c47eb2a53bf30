//! The pipeline orchestrator: per-frame uniform state, the live light and
//! shape snapshots with their rebuilt hierarchy, the render targets of
//! every pass, the sub-pixel jitter sequence and the upsampling strategy.
//! `render` sequences the passes in their fixed order — geometry, light
//! accumulation, tonemap, upsample, composite — and advances the jitter
//! and dither rotations exactly once per frame.

use vstd::prelude::*;

verus! {

use crate::mathx::clamp_spec;
use crate::light::{LightData, LightsConfig, MAX_LIGHTS};
use crate::shape::{ShapeData, ShapeBVHNode, ShapesConfig};
use crate::bvh::{self, MAX_SHAPES};
use crate::texture::{Texel, Texture, TEXTURE_LIMIT};
use crate::taa::TAA;
use crate::blit_sampler::BLIT;
use crate::geometry::{GeometryRenderer, JITTER_ONE, VIEW_LIMIT, TRANSLATE_LIMIT};
use crate::light_map::{LightMapRenderer, DitherTile};
use crate::sdf::SDF;

/// The jitter sequence repeats after this many frames.
pub const NUM_SUBPIXEL_JITTER_SAMPLES: usize = 16;

/// Smallest render resolution either axis is clamped to.
pub const RESOLUTION_MIN: u32 = 16;

/// Largest render resolution either axis is clamped to.
pub const RESOLUTION_MAX: u32 = 8192;

/// The radical-inverse digit sum with truncating integer weights: the
/// value of `halton(base, i)` in `JITTER_ONE`ths, or zero for a
/// degenerate base.
pub open spec fn halton_frac(base: int, i: int, f: int) -> int
    decreases i,
    via halton_frac_dec
{
    if i <= 0 || base <= 1 {
        0
    } else {
        let f2 = f / base;
        f2 * (i % base) + halton_frac(base, i / base, f2)
    }
}

#[via_fn]
proof fn halton_frac_dec(base: int, i: int, f: int) {
    if i > 0 && base > 1 {
        assert(0 <= i / base < i) by (nonlinear_arith)
            requires
                1 <= i,
                2 <= base,
        ;
    }
}

/// Evaluates the low-discrepancy radical inverse in fixed point.
pub fn halton(base: u64, index: u64) -> (r: u64)
    requires
        2 <= base <= 0x100,
        index <= 0x1_0000,
    ensures
        r == halton_frac(base as int, index as int, JITTER_ONE as int),
        r < JITTER_ONE,
{
    let mut f: u64 = JITTER_ONE as u64;
    let mut acc: u64 = 0;
    let mut i: u64 = index;
    proof {
        assert(halton_frac(base as int, index as int, JITTER_ONE as int)
            == acc + halton_frac(base as int, i as int, f as int));
    }
    while i > 0
        invariant
            2 <= base <= 0x100,
            f <= JITTER_ONE,
            acc + f <= JITTER_ONE,
            acc < JITTER_ONE,
            acc + halton_frac(base as int, i as int, f as int)
                == halton_frac(base as int, index as int, JITTER_ONE as int),
        decreases i,
    {
        let f2 = f / base;
        let digit = i % base;
        proof {
            assert(f2 * base <= f) by (nonlinear_arith)
                requires
                    f2 == f as int / base as int,
                    2 <= base,
                    0 <= f,
            ;
            assert(f2 * digit <= f - f2 && f2 * digit <= 0x1_0000 && 0 <= f2 * digit)
                by (nonlinear_arith)
                requires
                    f2 == f as int / base as int,
                    digit == i as int % base as int,
                    2 <= base,
                    0 <= f <= 0x1_0000,
                    f2 * base <= f,
                    0 <= digit < base,
            ;
            assert(0 <= i as int / (base as int) < i as int) by (nonlinear_arith)
                requires
                    1 <= i,
                    2 <= base,
            ;
        }
        proof {
            // The sum stays strictly below one: a zero weight adds
            // nothing, and a positive weight leaves itself as headroom.
            if f2 == 0 {
                assert(f2 * digit == 0) by (nonlinear_arith)
                    requires
                        f2 == 0,
                ;
            } else {
                assert(acc + f2 * digit <= JITTER_ONE - f2);
            }
        }
        acc = acc + f2 * digit;
        f = f2;
        i = i / base;
    }
    acc
}

/// The sub-pixel jitter numerator for frame `i` on the horizontal axis:
/// the base-2 radical inverse of the position in the 16-frame cycle, kept
/// strictly inside `[0, JITTER_ONE)`.  `JITTER_ONE / 2` is the unjittered
/// pixel center.
pub open spec fn jitter_x_at(i: int) -> int {
    let v = halton_frac(2, i % 16 + 1, JITTER_ONE as int);
    if v >= JITTER_ONE {
        JITTER_ONE - 1
    } else {
        v
    }
}

/// The vertical counterpart of `jitter_x_at`, from the base-3 sequence.
pub open spec fn jitter_y_at(i: int) -> int {
    let v = halton_frac(3, i % 16 + 1, JITTER_ONE as int);
    if v >= JITTER_ONE {
        JITTER_ONE - 1
    } else {
        v
    }
}

/// The jitter sequence is periodic: sixteen frames later the offset is the
/// same, on both axes; and it is a function of the frame index alone, so
/// equal indices always yield equal offsets.
pub proof fn lemma_jitter_periodic(i: int)
    requires
        0 <= i,
    ensures
        jitter_x_at(i + 16) == jitter_x_at(i),
        jitter_y_at(i + 16) == jitter_y_at(i),
{
    assert((i + 16) % 16 == i % 16) by {
        vstd::arithmetic::div_mod::lemma_mod_add_multiples_vanish(i, 16);
    }
}

/// One entry of the jitter table.
#[derive(Clone, Copy, Debug, PartialEq, Eq, Structural)]
pub struct JitterSample {
    pub x: i64,
    pub y: i64,
}

/// Builds the 16-entry jitter table; entry `k` holds the offsets of frame
/// `k` of the cycle.
pub fn jitter_table() -> (t: Vec<JitterSample>)
    ensures
        t@.len() == NUM_SUBPIXEL_JITTER_SAMPLES,
        forall|k: int| 0 <= k < t@.len() ==> {
            &&& (#[trigger] t@[k]).x == jitter_x_at(k)
            &&& t@[k].y == jitter_y_at(k)
            &&& 0 <= t@[k].x < JITTER_ONE
            &&& 0 <= t@[k].y < JITTER_ONE
        },
{
    let mut t: Vec<JitterSample> = Vec::new();
    let mut k: usize = 0;
    while k < NUM_SUBPIXEL_JITTER_SAMPLES
        invariant
            k <= NUM_SUBPIXEL_JITTER_SAMPLES,
            t@.len() == k,
            forall|q: int| 0 <= q < k ==> {
                &&& (#[trigger] t@[q]).x == jitter_x_at(q)
                &&& t@[q].y == jitter_y_at(q)
                &&& 0 <= t@[q].x < JITTER_ONE
                &&& 0 <= t@[q].y < JITTER_ONE
            },
        decreases NUM_SUBPIXEL_JITTER_SAMPLES - k,
    {
        let hx = halton(2, (k + 1) as u64);
        let hy = halton(3, (k + 1) as u64);
        let x = if hx >= JITTER_ONE as u64 { JITTER_ONE - 1 } else { hx as i64 };
        let y = if hy >= JITTER_ONE as u64 { JITTER_ONE - 1 } else { hy as i64 };
        proof {
            vstd::arithmetic::div_mod::lemma_small_mod(k as nat, 16);
        }
        t.push(JitterSample { x, y });
        k = k + 1;
    }
    t
}

/// One axis of the render resolution: the window size scaled by
/// `scale_num / 32`, rounded up, clamped into the supported band and never
/// above the window itself (when the window allows it).
pub open spec fn render_axis(size: int, scale_num: int) -> int {
    let target = (size * scale_num + 31) / 32;
    let hi = if size < RESOLUTION_MAX { size } else { RESOLUTION_MAX as int };
    let hi2 = if hi < RESOLUTION_MIN { RESOLUTION_MIN as int } else { hi };
    clamp_spec(target, RESOLUTION_MIN as int, hi2)
}

/// Computes one axis of the internal render resolution.  Whatever the
/// window size or scale, the result stays within the supported band.
pub fn compute_render_axis(size: u32, scale_num: u32) -> (r: u32)
    requires
        1 <= scale_num <= 64,
    ensures
        r == render_axis(size as int, scale_num as int),
        RESOLUTION_MIN <= r <= RESOLUTION_MAX,
{
    proof {
        assert(0 <= size as int * scale_num as int + 31 <= 0x40_0000_0000) by (nonlinear_arith)
            requires
                0 <= size as int <= 0x1_0000_0000,
                1 <= scale_num as int <= 64,
        ;
    }
    let target = (size as u64 * scale_num as u64 + 31) / 32;
    let hi = if size < RESOLUTION_MAX { size } else { RESOLUTION_MAX };
    let hi2 = if hi < RESOLUTION_MIN { RESOLUTION_MIN } else { hi };
    if target < RESOLUTION_MIN as u64 {
        RESOLUTION_MIN
    } else if target > hi2 as u64 {
        hi2
    } else {
        target as u32
    }
}

/// The two interchangeable upsampling strategies.
#[derive(Clone, Copy, Debug, PartialEq, Eq, Structural)]
pub enum Upsampler {
    TAA,
    BLIT,
}

/// The live strategy with its state.
pub enum UpsamplerCell {
    TAA(TAA),
    BLIT(BLIT),
}

impl UpsamplerCell {
    /// Which strategy is live.
    pub open spec fn upsampler_spec(self) -> Upsampler {
        match self {
            UpsamplerCell::TAA(_) => Upsampler::TAA,
            UpsamplerCell::BLIT(_) => Upsampler::BLIT,
        }
    }

    pub open spec fn wf(self, out_width: int, out_height: int) -> bool {
        match self {
            UpsamplerCell::TAA(taa) => taa.wf() && taa.out_width == out_width
                && taa.out_height == out_height,
            UpsamplerCell::BLIT(_) => true,
        }
    }

    /// The strategy's own state is sound, whatever resolution it was
    /// last pointed at.
    pub open spec fn state_wf(self) -> bool {
        match self {
            UpsamplerCell::TAA(taa) => taa.wf(),
            UpsamplerCell::BLIT(_) => true,
        }
    }

    /// Records the new output resolution on the strategy that keeps
    /// history; the direct strategy has nothing to resize.
    pub fn resize(&mut self, out_width: usize, out_height: usize)
        requires
            old(self).state_wf(),
            1 <= out_width <= TEXTURE_LIMIT,
            1 <= out_height <= TEXTURE_LIMIT,
        ensures
            final(self).wf(out_width as int, out_height as int),
            final(self).upsampler_spec() == old(self).upsampler_spec(),
    {
        match self {
            UpsamplerCell::TAA(taa) => taa.resize(out_width, out_height),
            UpsamplerCell::BLIT(_) => {},
        }
    }

    /// Which strategy is live.
    pub fn upsampler(&self) -> (u: Upsampler)
        ensures
            u == self.upsampler_spec(),
    {
        match self {
            UpsamplerCell::TAA(_) => Upsampler::TAA,
            UpsamplerCell::BLIT(_) => Upsampler::BLIT,
        }
    }
}

/// The per-frame uniform state, recomputed each frame from current input.
#[derive(Clone, Copy, Debug, PartialEq, Eq, Structural)]
pub struct Uniforms {
    pub translate_x: i64,
    pub translate_y: i64,
    pub view_w: i64,
    pub view_h: i64,
    pub sub_pixel_jitter_x: i64,
    pub sub_pixel_jitter_y: i64,
    pub mouse_x: i64,
    pub mouse_y: i64,
    pub cursor_size: i64,
    pub time_ms: u64,
    pub exposure: u32,
}

impl Uniforms {
    pub open spec fn wf(self) -> bool {
        &&& -TRANSLATE_LIMIT <= self.translate_x <= TRANSLATE_LIMIT
        &&& -TRANSLATE_LIMIT <= self.translate_y <= TRANSLATE_LIMIT
        &&& 1 <= self.view_w <= VIEW_LIMIT
        &&& 1 <= self.view_h <= VIEW_LIMIT
        &&& 0 <= self.sub_pixel_jitter_x < JITTER_ONE
        &&& 0 <= self.sub_pixel_jitter_y < JITTER_ONE
        &&& self.exposure <= 0x1_0000
    }
}

impl Default for Uniforms {
    /// A unit view at the origin, centered sampling, unit exposure.
    fn default() -> (u: Self)
        ensures
            u.wf(),
            u.translate_x == 0 && u.translate_y == 0,
            u.view_w == 1 && u.view_h == 1,
            u.sub_pixel_jitter_x == JITTER_ONE / 2,
            u.sub_pixel_jitter_y == JITTER_ONE / 2,
            u.mouse_x == 0 && u.mouse_y == 0,
            u.cursor_size == 0,
            u.time_ms == 0,
            u.exposure == 0x100,
    {
        Uniforms {
            translate_x: 0,
            translate_y: 0,
            view_w: 1,
            view_h: 1,
            sub_pixel_jitter_x: JITTER_ONE / 2,
            sub_pixel_jitter_y: JITTER_ONE / 2,
            mouse_x: 0,
            mouse_y: 0,
            cursor_size: 0,
            time_ms: 0,
            exposure: 0x100,
        }
    }
}

/// One tonemapped channel: the accumulated light scaled by the exposure
/// (256 meaning one) and capped at the texel range.
pub open spec fn tonemap_channel(c: int, exposure: int) -> u32 {
    crate::light_map::cap_channel(c * exposure / 256)
}

/// One tonemapped texel.
pub open spec fn tonemap_texel(t: Texel, exposure: int) -> Texel {
    Texel {
        r: tonemap_channel(t.r as int, exposure),
        g: tonemap_channel(t.g as int, exposure),
        b: tonemap_channel(t.b as int, exposure),
    }
}

/// Field values this close to the surface draw the crisp terrain contour
/// in the final composite.
pub const COMPOSITE_EDGE: i64 = 2;

/// One composited output pixel: the terrain contour where the field is
/// near its surface, the upsampled lighting elsewhere.
pub open spec fn composite_pixel(v: int, up: Texel) -> Texel {
    if -COMPOSITE_EDGE <= v <= COMPOSITE_EDGE {
        Texel { r: 0xF0, g: 0xF0, b: 0xF0 }
    } else {
        up
    }
}

/// The pipeline orchestrator: owns every pass, the per-frame snapshots,
/// both resolutions, and the rotation counters.
pub struct Renderer {
    pub uniforms: Uniforms,
    pub lights: Vec<LightData>,
    pub lights_config: LightsConfig,
    pub shapes: Vec<ShapeData>,
    pub bvh: Vec<ShapeBVHNode>,
    pub shapes_config: ShapesConfig,
    pub geometry_renderer: GeometryRenderer,
    pub light_map_renderer: LightMapRenderer,
    pub color_texture: Texture,
    pub subpixel_jitter_samples: Vec<JitterSample>,
    pub subpixel_jitter_index: usize,
    pub upsampler: UpsamplerCell,
    pub render_w: usize,
    pub render_h: usize,
    pub output_w: usize,
    pub output_h: usize,
    pub position_x: i64,
    pub position_y: i64,
    pub view_w: i64,
    pub view_h: i64,
}

impl Renderer {
    pub open spec fn wf(self) -> bool {
        &&& self.uniforms.wf()
        &&& self.lights@.len() <= MAX_LIGHTS
        &&& forall|k: int| 0 <= k < self.lights@.len() ==> (#[trigger] self.lights@[k]).wf()
        &&& self.lights_config.num_lights == self.lights@.len()
        &&& self.shapes@.len() <= MAX_SHAPES
        &&& forall|k: int| 0 <= k < self.shapes@.len() ==> (#[trigger] self.shapes@[k]).wf()
        &&& bvh::bvh_wf(self.bvh@, self.shapes@)
        &&& self.shapes_config.num_shapes == self.shapes@.len()
        &&& self.shapes_config.num_bvh_nodes == self.bvh@.len()
        &&& 1 <= self.render_w <= TEXTURE_LIMIT
        &&& 1 <= self.render_h <= TEXTURE_LIMIT
        &&& 1 <= self.output_w <= TEXTURE_LIMIT
        &&& 1 <= self.output_h <= TEXTURE_LIMIT
        &&& self.geometry_renderer.wf()
        &&& self.geometry_renderer.width == self.render_w
        &&& self.geometry_renderer.height == self.render_h
        &&& self.light_map_renderer.wf()
        &&& self.light_map_renderer.width == self.render_w
        &&& self.light_map_renderer.height == self.render_h
        &&& self.color_texture.wf()
        &&& self.color_texture.width == self.render_w
        &&& self.color_texture.height == self.render_h
        &&& self.subpixel_jitter_samples@.len() == NUM_SUBPIXEL_JITTER_SAMPLES
        &&& forall|k: int| 0 <= k < self.subpixel_jitter_samples@.len() ==> {
            &&& (#[trigger] self.subpixel_jitter_samples@[k]).x == jitter_x_at(k)
            &&& self.subpixel_jitter_samples@[k].y == jitter_y_at(k)
            &&& 0 <= self.subpixel_jitter_samples@[k].x < JITTER_ONE
            &&& 0 <= self.subpixel_jitter_samples@[k].y < JITTER_ONE
        }
        &&& self.subpixel_jitter_index < NUM_SUBPIXEL_JITTER_SAMPLES
        &&& self.upsampler.wf(self.output_w as int, self.output_h as int)
        &&& -TRANSLATE_LIMIT <= self.position_x <= TRANSLATE_LIMIT
        &&& -TRANSLATE_LIMIT <= self.position_y <= TRANSLATE_LIMIT
        &&& 1 <= self.view_w <= VIEW_LIMIT
        &&& 1 <= self.view_h <= VIEW_LIMIT
    }

    /// Creates the orchestrator: empty snapshots, black targets at the
    /// render resolution, the jitter table, the temporal strategy, and a
    /// view a quarter of the world tall with the output's aspect ratio.
    pub fn new(
        render_w: usize, render_h: usize, output_w: usize, output_h: usize,
        world_w: i64, world_h: i64, tiles: Vec<DitherTile>,
    ) -> (r: Self)
        requires
            1 <= render_w <= TEXTURE_LIMIT,
            1 <= render_h <= TEXTURE_LIMIT,
            1 <= output_w <= TEXTURE_LIMIT,
            1 <= output_h <= TEXTURE_LIMIT,
            1 <= world_w <= VIEW_LIMIT,
            1 <= world_h <= VIEW_LIMIT,
            1 <= tiles@.len() <= 0x1_0000,
            forall|i: int| 0 <= i < tiles@.len() ==> (#[trigger] tiles@[i]).wf(),
        ensures
            r.wf(),
            r.render_w == render_w,
            r.render_h == render_h,
            r.output_w == output_w,
            r.output_h == output_h,
            r.lights@.len() == 0,
            r.shapes@.len() == 0,
            r.subpixel_jitter_index == 0,
            r.light_map_renderer.blue_noise_index == 0,
            r.light_map_renderer.tiles == tiles,
            r.uniforms == (Uniforms {
                translate_x: 0,
                translate_y: 0,
                view_w: 1,
                view_h: 1,
                sub_pixel_jitter_x: (JITTER_ONE / 2) as i64,
                sub_pixel_jitter_y: (JITTER_ONE / 2) as i64,
                mouse_x: 0,
                mouse_y: 0,
                cursor_size: 0,
                time_ms: 0,
                exposure: 0x100,
            }),
            r.upsampler.upsampler_spec() == Upsampler::TAA,
            r.position_x == 0 && r.position_y == 0,
            r.view_h == clamp_spec(world_h as int / 4, 1, VIEW_LIMIT as int),
            r.view_w == clamp_spec(
                clamp_spec(world_h as int / 4, 1, VIEW_LIMIT as int) * output_w
                    / (output_h as int),
                1, VIEW_LIMIT as int,
            ),
    {
        let view_h = crate::mathx::clamp64(world_h / 4, 1, VIEW_LIMIT);
        proof {
            assert(0 <= view_h * (output_w as i64) <= 0x10_0000 * 0x2000) by (nonlinear_arith)
                requires
                    1 <= view_h <= 0x10_0000,
                    1 <= output_w as i64 <= 0x2000,
            ;
        }
        let view_w = crate::mathx::clamp64(view_h * (output_w as i64) / (output_h as i64), 1, VIEW_LIMIT);
        let shapes: Vec<ShapeData> = Vec::new();
        let bvh_nodes = bvh::build(&shapes);
        Renderer {
            uniforms: Default::default(),
            lights: Vec::new(),
            lights_config: LightsConfig { num_lights: 0 },
            shapes,
            bvh: bvh_nodes,
            shapes_config: ShapesConfig { num_shapes: 0, num_bvh_nodes: 0 },
            geometry_renderer: GeometryRenderer::new(render_w, render_h),
            light_map_renderer: LightMapRenderer::new(render_w, render_h, tiles),
            color_texture: Texture::new_intermediate(render_w, render_h),
            subpixel_jitter_samples: jitter_table(),
            subpixel_jitter_index: 0,
            upsampler: UpsamplerCell::TAA(TAA::new(output_w, output_h)),
            render_w,
            render_h,
            output_w,
            output_h,
            position_x: 0,
            position_y: 0,
            view_w,
            view_h,
        }
    }

    /// Reallocates every render-resolution target; bindings to the old
    /// targets are dropped with them.
    pub fn resize_render_resolution(&mut self, render_w: usize, render_h: usize)
        requires
            old(self).wf(),
            1 <= render_w <= TEXTURE_LIMIT,
            1 <= render_h <= TEXTURE_LIMIT,
        ensures
            final(self).wf(),
            final(self).render_w == render_w,
            final(self).render_h == render_h,
            final(self).output_w == old(self).output_w,
            final(self).output_h == old(self).output_h,
            final(self).uniforms == old(self).uniforms,
            final(self).lights == old(self).lights,
            final(self).shapes == old(self).shapes,
            final(self).bvh == old(self).bvh,
            final(self).upsampler.upsampler_spec() == old(self).upsampler.upsampler_spec(),
            final(self).upsampler == old(self).upsampler,
            final(self).light_map_renderer.blue_noise_index
                == old(self).light_map_renderer.blue_noise_index,
            final(self).light_map_renderer.tiles == old(self).light_map_renderer.tiles,
            final(self).subpixel_jitter_index == old(self).subpixel_jitter_index,
            final(self).position_x == old(self).position_x,
            final(self).position_y == old(self).position_y,
            final(self).view_w == old(self).view_w,
            final(self).view_h == old(self).view_h,
    {
        self.geometry_renderer.resize(render_w, render_h);
        self.light_map_renderer.resize(render_w, render_h);
        self.color_texture = Texture::new_intermediate(render_w, render_h);
        self.render_w = render_w;
        self.render_h = render_h;
    }

    /// Resizes both resolutions: reallocates the render-resolution
    /// targets, points the upsampler at the new output resolution, and
    /// restores the view's aspect ratio from the output window.
    pub fn resize(
        &mut self, render_w: usize, render_h: usize, output_w: usize, output_h: usize,
    )
        requires
            old(self).wf(),
            1 <= render_w <= TEXTURE_LIMIT,
            1 <= render_h <= TEXTURE_LIMIT,
            1 <= output_w <= TEXTURE_LIMIT,
            1 <= output_h <= TEXTURE_LIMIT,
        ensures
            final(self).wf(),
            final(self).render_w == render_w,
            final(self).render_h == render_h,
            final(self).output_w == output_w,
            final(self).output_h == output_h,
            final(self).upsampler.upsampler_spec() == old(self).upsampler.upsampler_spec(),
            final(self).uniforms == old(self).uniforms,
            final(self).lights == old(self).lights,
            final(self).shapes == old(self).shapes,
            final(self).bvh == old(self).bvh,
            final(self).position_x == old(self).position_x,
            final(self).position_y == old(self).position_y,
            final(self).subpixel_jitter_index == old(self).subpixel_jitter_index,
            final(self).light_map_renderer.blue_noise_index
                == old(self).light_map_renderer.blue_noise_index,
            final(self).light_map_renderer.tiles == old(self).light_map_renderer.tiles,
            final(self).view_h == old(self).view_h,
            final(self).view_w == clamp_spec(
                old(self).view_h * output_w / (output_h as int), 1, VIEW_LIMIT as int,
            ),
    {
        self.resize_render_resolution(render_w, render_h);
        self.upsampler.resize(output_w, output_h);
        self.output_w = output_w;
        self.output_h = output_h;
        proof {
            assert(0 <= self.view_h * (output_w as i64) <= 0x10_0000 * 0x2000) by (nonlinear_arith)
                requires
                    1 <= self.view_h <= 0x10_0000,
                    1 <= output_w as i64 <= 0x2000,
            ;
        }
        self.view_w = crate::mathx::clamp64(
            self.view_h * (output_w as i64) / (output_h as i64), 1, VIEW_LIMIT,
        );
    }

    /// Rebuilds the per-frame uniforms from the camera, the cursor and the
    /// tone parameters.  The sub-pixel jitter comes from the table at the
    /// current frame index under the temporal strategy, and is the pixel
    /// center under the direct strategy.
    pub fn update_uniforms(
        &mut self, mouse_x: i64, mouse_y: i64, cursor_size: i64, exposure: u32, time_ms: u64,
    )
        requires
            old(self).wf(),
            exposure <= 0x1_0000,
        ensures
            final(self).wf(),
            *final(self) == (Renderer { uniforms: final(self).uniforms, ..*old(self) }),
            final(self).uniforms.translate_x == old(self).position_x,
            final(self).uniforms.translate_y == old(self).position_y,
            final(self).uniforms.view_w == old(self).view_w,
            final(self).uniforms.view_h == old(self).view_h,
            final(self).uniforms.mouse_x == mouse_x,
            final(self).uniforms.mouse_y == mouse_y,
            final(self).uniforms.cursor_size == cursor_size,
            final(self).uniforms.exposure == exposure,
            final(self).uniforms.time_ms == time_ms,
            old(self).upsampler.upsampler_spec() == Upsampler::TAA ==> {
                &&& final(self).uniforms.sub_pixel_jitter_x
                    == jitter_x_at(old(self).subpixel_jitter_index as int)
                &&& final(self).uniforms.sub_pixel_jitter_y
                    == jitter_y_at(old(self).subpixel_jitter_index as int)
            },
            old(self).upsampler.upsampler_spec() == Upsampler::BLIT ==> {
                &&& final(self).uniforms.sub_pixel_jitter_x == JITTER_ONE / 2
                &&& final(self).uniforms.sub_pixel_jitter_y == JITTER_ONE / 2
            },
    {
        let jitter = match self.upsampler.upsampler() {
            Upsampler::TAA => self.subpixel_jitter_samples[self.subpixel_jitter_index],
            Upsampler::BLIT => JitterSample { x: JITTER_ONE / 2, y: JITTER_ONE / 2 },
        };
        self.uniforms = Uniforms {
            translate_x: self.position_x,
            translate_y: self.position_y,
            view_w: self.view_w,
            view_h: self.view_h,
            sub_pixel_jitter_x: jitter.x,
            sub_pixel_jitter_y: jitter.y,
            mouse_x,
            mouse_y,
            cursor_size,
            time_ms,
            exposure,
        };
    }

    /// Sets the camera: the view window's world-space center and extent.
    pub fn set_view(&mut self, x: i64, y: i64, view_w: i64, view_h: i64)
        requires
            old(self).wf(),
            -TRANSLATE_LIMIT <= x <= TRANSLATE_LIMIT,
            -TRANSLATE_LIMIT <= y <= TRANSLATE_LIMIT,
            1 <= view_w <= VIEW_LIMIT,
            1 <= view_h <= VIEW_LIMIT,
        ensures
            final(self).wf(),
            *final(self) == (Renderer {
                position_x: x,
                position_y: y,
                view_w,
                view_h,
                ..*old(self)
            }),
    {
        self.position_x = x;
        self.position_y = y;
        self.view_w = view_w;
        self.view_h = view_h;
    }

    /// Replaces the light snapshot.
    pub fn update_lights(&mut self, lights: Vec<LightData>)
        requires
            old(self).wf(),
            lights@.len() <= MAX_LIGHTS,
            forall|k: int| 0 <= k < lights@.len() ==> (#[trigger] lights@[k]).wf(),
        ensures
            final(self).wf(),
            *final(self) == (Renderer {
                lights: final(self).lights,
                lights_config: final(self).lights_config,
                ..*old(self)
            }),
            final(self).lights == lights,
            final(self).lights_config.num_lights == lights@.len(),
    {
        self.lights_config = LightsConfig { num_lights: lights.len() as u32 };
        self.lights = lights;
    }

    /// Replaces the shape snapshot and rebuilds its hierarchy.
    pub fn update_shapes(&mut self, shapes: Vec<ShapeData>)
        requires
            old(self).wf(),
            shapes@.len() <= MAX_SHAPES,
            forall|k: int| 0 <= k < shapes@.len() ==> (#[trigger] shapes@[k]).wf(),
        ensures
            final(self).wf(),
            *final(self) == (Renderer {
                shapes: final(self).shapes,
                bvh: final(self).bvh,
                shapes_config: final(self).shapes_config,
                ..*old(self)
            }),
            final(self).shapes == shapes,
            bvh::bvh_wf(final(self).bvh@, shapes@),
            final(self).shapes_config.num_shapes == shapes@.len(),
            final(self).shapes_config.num_bvh_nodes == final(self).bvh@.len(),
    {
        let nodes = bvh::build(&shapes);
        self.shapes_config = ShapesConfig {
            num_shapes: shapes.len() as u32,
            num_bvh_nodes: nodes.len() as u32,
        };
        proof {
            assert(nodes@.len() <= 2 * MAX_SHAPES);
        }
        self.shapes = shapes;
        self.bvh = nodes;
    }

    /// Hot-swaps the upsampling strategy: if the requested strategy is not
    /// the live one, a fresh strategy state is built at the current output
    /// resolution (temporal history starts black); otherwise nothing
    /// changes.
    pub fn update_upsampler(&mut self, upsampler: &Upsampler)
        requires
            old(self).wf(),
        ensures
            final(self).wf(),
            *final(self) == (Renderer { upsampler: final(self).upsampler, ..*old(self) }),
            final(self).upsampler.upsampler_spec() == *upsampler,
            old(self).upsampler.upsampler_spec() == *upsampler
                ==> final(self).upsampler == old(self).upsampler,
    {
        let current = self.upsampler.upsampler();
        let same = match (&current, upsampler) {
            (Upsampler::TAA, Upsampler::TAA) => true,
            (Upsampler::BLIT, Upsampler::BLIT) => true,
            _ => false,
        };
        if !same {
            self.upsampler = match upsampler {
                Upsampler::TAA => UpsamplerCell::TAA(TAA::new(self.output_w, self.output_h)),
                Upsampler::BLIT => UpsamplerCell::BLIT(BLIT::new()),
            };
        }
    }

    /// Runs the full pipeline once: geometry, light accumulation (which
    /// advances the dither rotation), exposure tonemap, upsampling under
    /// the live strategy, and the final composite of the upsampled
    /// lighting with the crisp terrain contour sampled at output
    /// resolution.  The jitter sequence advances exactly once, however
    /// many edits happened this frame.
    #[verifier::rlimit(100)]
    pub fn render(&mut self, sdf: &SDF) -> (frame: Texture)
        requires
            old(self).wf(),
            sdf.wf(),
        ensures
            final(self).wf(),
            frame.wf(),
            frame.width == old(self).output_w,
            frame.height == old(self).output_h,
            final(self).subpixel_jitter_index
                == (old(self).subpixel_jitter_index + 1) % NUM_SUBPIXEL_JITTER_SAMPLES as int,
            final(self).light_map_renderer.blue_noise_index
                == (old(self).light_map_renderer.blue_noise_index + 1)
                    % old(self).light_map_renderer.tiles@.len() as int,
            final(self).uniforms == old(self).uniforms,
            final(self).lights == old(self).lights,
            final(self).shapes == old(self).shapes,
            final(self).bvh == old(self).bvh,
            final(self).render_w == old(self).render_w,
            final(self).render_h == old(self).render_h,
            final(self).output_w == old(self).output_w,
            final(self).output_h == old(self).output_h,
            final(self).position_x == old(self).position_x,
            final(self).position_y == old(self).position_y,
            final(self).view_w == old(self).view_w,
            final(self).view_h == old(self).view_h,
            final(self).upsampler.upsampler_spec() == old(self).upsampler.upsampler_spec(),
            // The geometry targets describe every pixel exactly.
            forall|j: int| 0 <= j < old(self).render_w * old(self).render_h ==> {
                let u = old(self).uniforms;
                let wx = crate::geometry::pixel_world(
                    u.translate_x as int, u.view_w as int, old(self).render_w as int,
                    u.sub_pixel_jitter_x as int, j % old(self).render_w as int,
                );
                let wy = crate::geometry::pixel_world(
                    u.translate_y as int, u.view_h as int, old(self).render_h as int,
                    u.sub_pixel_jitter_y as int, j / old(self).render_w as int,
                );
                let px = crate::geometry::geometry_pixel(*sdf, old(self).shapes@, wx, wy);
                &&& #[trigger] final(self).geometry_renderer.diffuse.texels@[j] == px.0
                &&& final(self).geometry_renderer.normals_metallic_and_roughness.texels@[j]
                    == px.1
                &&& final(self).geometry_renderer.depth@[j] == px.2
            },
            // The lightmap describes every pixel's accumulated light.
            forall|j: int| 0 <= j < old(self).render_w * old(self).render_h ==> {
                let u = old(self).uniforms;
                let x = j % old(self).render_w as int;
                let y = j / old(self).render_w as int;
                let wx = crate::geometry::pixel_world(
                    u.translate_x as int, u.view_w as int, old(self).render_w as int,
                    u.sub_pixel_jitter_x as int, x,
                );
                let wy = crate::geometry::pixel_world(
                    u.translate_y as int, u.view_h as int, old(self).render_h as int,
                    u.sub_pixel_jitter_y as int, y,
                );
                let dither = old(self).light_map_renderer.tiles@[
                    (old(self).light_map_renderer.blue_noise_index + 1)
                        % old(self).light_map_renderer.tiles@.len() as int
                ].values@[(y % 64) * 64 + x % 64];
                #[trigger] final(self).light_map_renderer.lightmap.texels@[j]
                    == crate::light_map::light_pixel(
                        *sdf, old(self).shapes@, old(self).lights@,
                        sdf.width as int, sdf.height as int, wx, wy,
                        final(self).geometry_renderer.diffuse.texels@[j],
                        final(self).geometry_renderer
                            .normals_metallic_and_roughness.texels@[j].r as int,
                        dither as int,
                    )
            },
            // The color target is the exposure-scaled lightmap.
            forall|j: int| 0 <= j < old(self).render_w * old(self).render_h
                ==> #[trigger] final(self).color_texture.texels@[j] == tonemap_texel(
                    final(self).light_map_renderer.lightmap.texels@[j],
                    old(self).uniforms.exposure as int,
                ),
            // Under the direct strategy the frame composites the resampled
            // color target.
            old(self).upsampler is BLIT ==> forall|j: int|
                0 <= j < old(self).output_w * old(self).output_h
                    ==> #[trigger] frame.texels@[j] == composite_pixel(
                        composite_field_at(*old(self), *sdf, j),
                        final(self).color_texture.sample_spec(
                            j % old(self).output_w as int, j / old(self).output_w as int,
                            old(self).output_w as int, old(self).output_h as int,
                        ),
                    ),
            // Under the temporal strategy the history advances by one
            // blend and the frame composites the fresh history.
            old(self).upsampler is TAA ==> {
                &&& final(self).upsampler is TAA
                &&& final(self).upsampler->TAA_0.history_texture_index
                    == 1 - old(self).upsampler->TAA_0.history_texture_index
                &&& forall|x: int, y: int|
                    0 <= x < old(self).output_w && 0 <= y < old(self).output_h
                        ==> #[trigger] final(self).upsampler->TAA_0.output_spec().at(x, y)
                            == crate::taa::blend_spec(
                                old(self).upsampler->TAA_0.output_spec().sample_spec(
                                    x, y, old(self).output_w as int, old(self).output_h as int,
                                ),
                                final(self).color_texture.sample_spec(
                                    x, y, old(self).output_w as int, old(self).output_h as int,
                                ),
                            )
                &&& forall|j: int| 0 <= j < old(self).output_w * old(self).output_h
                    ==> #[trigger] frame.texels@[j] == composite_pixel(
                        composite_field_at(*old(self), *sdf, j),
                        final(self).upsampler->TAA_0.output_spec().at(
                            j % old(self).output_w as int, j / old(self).output_w as int,
                        ),
                    )
            },
    {
        let u = self.uniforms;
        self.geometry_renderer.render(
            sdf, &self.shapes, &self.bvh,
            u.translate_x, u.translate_y, u.view_w, u.view_h,
            u.sub_pixel_jitter_x, u.sub_pixel_jitter_y,
        );
        self.light_map_renderer.render(
            sdf, &self.geometry_renderer, &self.shapes, &self.bvh, &self.lights,
            u.translate_x, u.translate_y, u.view_w, u.view_h,
            u.sub_pixel_jitter_x, u.sub_pixel_jitter_y,
        );
        // Exposure tonemap into the color target.
        let rw = self.render_w;
        let rh = self.render_h;
        proof {
            assert(rw * rh <= 0x400_0000) by (nonlinear_arith)
                requires
                    rw <= TEXTURE_LIMIT,
                    rh <= TEXTURE_LIMIT,
            ;
        }
        let len = rw * rh;
        let mut texels: Vec<Texel> = Vec::new();
        let mut t: usize = 0;
        while t < len
            invariant
                self.light_map_renderer.wf(),
                self.light_map_renderer.width == rw,
                self.light_map_renderer.height == rh,
                u.exposure <= 0x1_0000,
                1 <= rw <= TEXTURE_LIMIT,
                1 <= rh <= TEXTURE_LIMIT,
                len == rw * rh,
                t <= len,
                texels@.len() == t,
                forall|j: int| 0 <= j < t ==> #[trigger] texels@[j] == tonemap_texel(
                    self.light_map_renderer.lightmap.texels@[j], u.exposure as int,
                ),
            decreases len - t,
        {
            let c = self.light_map_renderer.lightmap.texels[t];
            let e = u.exposure as u64;
            proof {
                assert(0 <= c.r as int * e as int <= 0x1_0000_0000_0000
                    && 0 <= c.g as int * e as int <= 0x1_0000_0000_0000
                    && 0 <= c.b as int * e as int <= 0x1_0000_0000_0000) by (nonlinear_arith)
                    requires
                        0 <= c.r as int <= 0x1_0000_0000,
                        0 <= c.g as int <= 0x1_0000_0000,
                        0 <= c.b as int <= 0x1_0000_0000,
                        0 <= e as int <= 0x1_0000,
                ;
            }
            let tr = c.r as u64 * e / 256;
            let tg = c.g as u64 * e / 256;
            let tb = c.b as u64 * e / 256;
            texels.push(Texel {
                r: if tr > 0xFFFF_FFFF { 0xFFFF_FFFFu32 } else { tr as u32 },
                g: if tg > 0xFFFF_FFFF { 0xFFFF_FFFFu32 } else { tg as u32 },
                b: if tb > 0xFFFF_FFFF { 0xFFFF_FFFFu32 } else { tb as u32 },
            });
            t = t + 1;
        }
        self.color_texture = Texture { width: rw, height: rh, texels };
        // Upsample under the live strategy, then composite.
        let ow = self.output_w;
        let oh = self.output_h;
        match &mut self.upsampler {
            UpsamplerCell::TAA(taa) => {
                taa.render(&self.color_texture);
            },
            UpsamplerCell::BLIT(_) => {},
        }
        let frame = match &self.upsampler {
            UpsamplerCell::TAA(taa) => composite(
                sdf, taa.output(), u.translate_x, u.translate_y, u.view_w, u.view_h,
            ),
            UpsamplerCell::BLIT(blit) => {
                let up = blit.upsample(&self.color_texture, ow, oh);
                let fr = composite(sdf, &up, u.translate_x, u.translate_y, u.view_w, u.view_h);
                proof {
                    assert forall|j: int| 0 <= j < ow * oh
                        implies #[trigger] fr.texels@[j] == composite_pixel(
                            composite_field_at(*old(self), *sdf, j),
                            self.color_texture.sample_spec(
                                j % ow as int, j / ow as int, ow as int, oh as int,
                            ),
                        ) by {
                        let x = j % ow as int;
                        let y = j / ow as int;
                        assert(0 <= x < ow as int && 0 <= y < oh as int
                            && j == y * ow as int + x) by (nonlinear_arith)
                            requires
                                0 <= j < ow as int * oh as int,
                                x == j % ow as int,
                                y == j / ow as int,
                                1 <= ow as int,
                        ;
                        assert(up.texels@[j] == up.at(x, y));
                        assert(up.at(x, y) == self.color_texture.sample_spec(
                            x, y, ow as int, oh as int,
                        ));
                    }
                }
                fr
            },
        };
        proof {
            if self.upsampler is TAA {
                let t1 = self.upsampler->TAA_0;
                assert forall|j: int| 0 <= j < ow * oh
                    implies #[trigger] frame.texels@[j] == composite_pixel(
                        composite_field_at(*old(self), *sdf, j),
                        t1.output_spec().at(j % ow as int, j / ow as int),
                    ) by {
                    let x = j % ow as int;
                    let y = j / ow as int;
                    assert(0 <= x < ow as int && 0 <= y < oh as int && j == y * ow as int + x)
                        by (nonlinear_arith)
                        requires
                            0 <= j < ow as int * oh as int,
                            x == j % ow as int,
                            y == j / ow as int,
                            1 <= ow as int,
                    ;
                }
            }
        }
        // One frame done: advance the jitter sequence.
        self.subpixel_jitter_index = (self.subpixel_jitter_index + 1) % NUM_SUBPIXEL_JITTER_SAMPLES;
        frame
    }
}

/// The field value under output pixel `j` of the final composite, sampled
/// at the pixel center with no jitter.
pub open spec fn composite_field_at(r: Renderer, sdf: SDF, j: int) -> int {
    let x = j % r.output_w as int;
    let y = j / r.output_w as int;
    sdf.sample_spec(
        crate::geometry::pixel_world(
            r.uniforms.translate_x as int, r.uniforms.view_w as int, r.output_w as int,
            JITTER_ONE as int / 2, x,
        ),
        crate::geometry::pixel_world(
            r.uniforms.translate_y as int, r.uniforms.view_h as int, r.output_h as int,
            JITTER_ONE as int / 2, y,
        ),
    )
}

/// Builds the final output image: each pixel is the crisp terrain contour
/// where the field crosses its surface, and the upsampled lighting
/// elsewhere.
fn composite(sdf: &SDF, up: &Texture, tx: i64, ty: i64, vw: i64, vh: i64) -> (frame: Texture)
    requires
        sdf.wf(),
        up.wf(),
        -TRANSLATE_LIMIT <= tx <= TRANSLATE_LIMIT,
        -TRANSLATE_LIMIT <= ty <= TRANSLATE_LIMIT,
        1 <= vw <= VIEW_LIMIT,
        1 <= vh <= VIEW_LIMIT,
    ensures
        frame.wf(),
        frame.width == up.width,
        frame.height == up.height,
        forall|j: int| 0 <= j < up.width * up.height ==> {
            let x = j % up.width as int;
            let y = j / up.width as int;
            let v = sdf.sample_spec(
                crate::geometry::pixel_world(
                    tx as int, vw as int, up.width as int, JITTER_ONE as int / 2, x,
                ),
                crate::geometry::pixel_world(
                    ty as int, vh as int, up.height as int, JITTER_ONE as int / 2, y,
                ),
            );
            #[trigger] frame.texels@[j] == composite_pixel(v, up.texels@[j])
        },
{
    let ow = up.width;
    let oh = up.height;
    proof {
        assert(ow * oh <= 0x400_0000) by (nonlinear_arith)
            requires
                ow <= TEXTURE_LIMIT,
                oh <= TEXTURE_LIMIT,
        ;
    }
    let len = ow * oh;
    let mut texels: Vec<Texel> = Vec::new();
    let mut t: usize = 0;
    while t < len
        invariant
            sdf.wf(),
            up.wf(),
            -TRANSLATE_LIMIT <= tx <= TRANSLATE_LIMIT,
            -TRANSLATE_LIMIT <= ty <= TRANSLATE_LIMIT,
            1 <= vw <= VIEW_LIMIT,
            1 <= vh <= VIEW_LIMIT,
            ow == up.width,
            oh == up.height,
            1 <= ow <= TEXTURE_LIMIT,
            1 <= oh <= TEXTURE_LIMIT,
            len == ow * oh,
            t <= len,
            texels@.len() == t,
            forall|j: int| 0 <= j < t ==> {
                let x = j % ow as int;
                let y = j / ow as int;
                let v = sdf.sample_spec(
                    crate::geometry::pixel_world(
                        tx as int, vw as int, ow as int, JITTER_ONE as int / 2, x,
                    ),
                    crate::geometry::pixel_world(
                        ty as int, vh as int, oh as int, JITTER_ONE as int / 2, y,
                    ),
                );
                #[trigger] texels@[j] == composite_pixel(v, up.texels@[j])
            },
        decreases len - t,
    {
        let x = t % ow;
        let y = t / ow;
        proof {
            assert(y < oh) by (nonlinear_arith)
                requires
                    t < len,
                    len == ow * oh,
                    y == t as int / ow as int,
                    ow >= 1,
            ;
        }
        let wx = crate::geometry::pixel_world_exec(tx, vw, ow, JITTER_ONE / 2, x);
        let wy = crate::geometry::pixel_world_exec(ty, vh, oh, JITTER_ONE / 2, y);
        let v = sdf.sample(wx, wy);
        let upx = up.texels[t];
        texels.push(if -COMPOSITE_EDGE <= v && v <= COMPOSITE_EDGE {
            Texel { r: 0xF0, g: 0xF0, b: 0xF0 }
        } else {
            upx
        });
        t = t + 1;
    }
    Texture { width: ow, height: oh, texels }
}

} // verus!

