use sculptfield::sdf::SDF;
use sculptfield::shape::{Point3, ShapeData};
use sculptfield::light::LightData;
use sculptfield::texture::{Texel, Texture};
use sculptfield::taa::TAA;
use sculptfield::blit_sampler::BLIT;
use sculptfield::geometry::{GeometryRenderer, DEPTH_FAR};
use sculptfield::light_map::DitherTile;
use sculptfield::renderer::{
    Renderer, Upsampler, halton, jitter_table, compute_render_axis,
    NUM_SUBPIXEL_JITTER_SAMPLES,
};

fn flat_tiles() -> Vec<DitherTile> {
    vec![DitherTile { values: vec![0u8; 64 * 64] }]
}

fn small_renderer() -> Renderer {
    // 4x4 render and output pixels over a 64-unit world: a 16x16 view.
    Renderer::new(4, 4, 4, 4, 64, 64, flat_tiles())
}

#[test]
fn halton_exact_values() {
    assert_eq!(halton(2, 1), 32768);
    assert_eq!(halton(2, 2), 16384);
    assert_eq!(halton(2, 3), 49152);
    assert_eq!(halton(2, 4), 8192);
    assert_eq!(halton(3, 1), 21845);
    assert_eq!(halton(3, 2), 43690);
}

#[test]
fn jitter_repeats_every_sixteen_and_is_deterministic() {
    let a = jitter_table();
    let b = jitter_table();
    assert_eq!(a.len(), NUM_SUBPIXEL_JITTER_SAMPLES);
    for k in 0..a.len() {
        // Same index always yields the same offset.
        assert_eq!(a[k].x, b[k].x);
        assert_eq!(a[k].y, b[k].y);
        assert!(0 <= a[k].x && a[k].x < 0x1_0000);
        assert!(0 <= a[k].y && a[k].y < 0x1_0000);
    }
    // The renderer walks the table cyclically: sixteen frames later the
    // index is back where it started.
    let mut r = small_renderer();
    let sdf = SDF::new(64, 64);
    assert_eq!(r.subpixel_jitter_index, 0);
    for _ in 0..16 {
        r.update_uniforms(0, 0, 0, 0x100, 0);
        let _ = r.render(&sdf);
    }
    assert_eq!(r.subpixel_jitter_index, 0);
}

#[test]
fn resolution_clamp_band() {
    // Whatever the window or scale, each axis lands in [16, 8192].
    assert_eq!(compute_render_axis(0, 32), 16);
    assert_eq!(compute_render_axis(10, 32), 16);
    assert_eq!(compute_render_axis(1280, 32), 1280);
    assert_eq!(compute_render_axis(1280, 16), 640);
    assert_eq!(compute_render_axis(1281, 16), 641);
    assert_eq!(compute_render_axis(100000, 32), 8192);
    assert_eq!(compute_render_axis(u32::MAX, 64), 8192);
    for &size in [0u32, 1, 15, 16, 17, 640, 8192, 8193, 1 << 20].iter() {
        for &scale in [1u32, 16, 32, 64].iter() {
            let r = compute_render_axis(size, scale);
            assert!(16 <= r && r <= 8192);
        }
    }
}

#[test]
fn texture_allocation_and_sampling() {
    let t = Texture::new_intermediate(2, 2);
    assert_eq!(t.get(1, 1), Texel { r: 0, g: 0, b: 0 });
    let one = Texture {
        width: 1,
        height: 1,
        texels: vec![Texel { r: 8, g: 16, b: 24 }],
    };
    // Any overlay pixel of a 1x1 source samples the single texel.
    assert_eq!(one.sample_scaled(0, 1, 2, 2), Texel { r: 8, g: 16, b: 24 });
}

#[test]
fn blit_passthrough_resamples() {
    let one = Texture {
        width: 1,
        height: 1,
        texels: vec![Texel { r: 8, g: 16, b: 24 }],
    };
    let b = BLIT::new();
    let up = b.upsample(&one, 2, 2);
    assert_eq!(up.width, 2);
    assert_eq!(up.height, 2);
    for y in 0..2 {
        for x in 0..2 {
            assert_eq!(up.get(x, y), Texel { r: 8, g: 16, b: 24 });
        }
    }
}

#[test]
fn taa_blends_an_eighth_of_the_new_frame() {
    let mut taa = TAA::new(2, 2);
    let color = Texture {
        width: 1,
        height: 1,
        texels: vec![Texel { r: 80, g: 160, b: 240 }],
    };
    taa.render(&color);
    // History starts black, so the first blend is one eighth of the frame.
    assert_eq!(taa.output().get(0, 0), Texel { r: 10, g: 20, b: 30 });
    taa.render(&color);
    // (7 * 10 + 80) / 8 = 18.
    assert_eq!(taa.output().get(1, 1), Texel { r: 18, g: 37, b: 56 });
}

#[test]
fn geometry_pass_depth_test() {
    let sdf = SDF::new(64, 64);
    let mut s = ShapeData::new();
    s.update_sphere(Point3 { x: 0, y: 0, z: -10 }, 5, 0xFF, 0, 0, 0, 0x33);
    let shapes = vec![s];
    let nodes = sculptfield::bvh::build(&shapes);
    let mut g = GeometryRenderer::new(4, 4);
    // Centered sampling: jitter at the pixel center.
    g.render(&sdf, &shapes, &nodes, 0, 0, 16, 16, 32768, 32768);
    // Pixel (1, 1) sits at world (-2, -2): over the sphere, depth is the
    // near side, center z minus the floor of sqrt(25 - 8).
    assert_eq!(g.depth[1 * 4 + 1], -14);
    assert_eq!(g.diffuse.get(1, 1), Texel { r: 0xFF, g: 0, b: 0 });
    assert_eq!(g.normals_metallic_and_roughness.get(1, 1), Texel { r: 0, g: 0x33, b: 0 });
    // Pixel (3, 3) sits at world (6, 6): off the sphere, solid terrain at
    // the far background depth.
    assert_eq!(g.depth[3 * 4 + 3], DEPTH_FAR);
    assert_eq!(g.diffuse.get(3, 3), Texel { r: 0x80, g: 0x70, b: 0x60 });
}

#[test]
fn lit_frame_under_direct_strategy() {
    // One white light sitting on the camera axis with every pixel inside
    // its emitter radius: each pixel gets the full, exposure-neutral
    // terrain albedo contribution.
    let sdf = SDF::new(64, 64);
    let mut r = small_renderer();
    r.update_upsampler(&Upsampler::BLIT);
    r.update_lights(vec![LightData::new(0x100, 0x100, 0x100, 0, 0, 10, 20)]);
    r.update_uniforms(0, 0, 0, 0x100, 0);
    let frame = r.render(&sdf);
    assert_eq!(frame.width, 4);
    assert_eq!(frame.height, 4);
    for y in 0..4 {
        for x in 0..4 {
            assert_eq!(frame.get(x, y), Texel { r: 0x80, g: 0x70, b: 0x60 });
        }
    }
}

#[test]
fn strategy_swap_mid_session() {
    // Switching from Temporal to Direct mid-session: the next frame still
    // comes out at the output resolution, with no history mismatch.
    let sdf = SDF::new(64, 64);
    let mut r = small_renderer();
    r.update_uniforms(0, 0, 0, 0x100, 0);
    let first = r.render(&sdf);
    assert_eq!(first.width, 4);
    r.update_upsampler(&Upsampler::BLIT);
    r.update_uniforms(0, 0, 0, 0x100, 0);
    let second = r.render(&sdf);
    assert_eq!(second.width, 4);
    assert_eq!(second.height, 4);
    r.update_upsampler(&Upsampler::TAA);
    r.update_uniforms(0, 0, 0, 0x100, 0);
    let third = r.render(&sdf);
    assert_eq!(third.width, 4);
    assert_eq!(third.height, 4);
}

#[test]
fn camera_setter() {
    let mut r = small_renderer();
    r.set_view(10, -20, 32, 24);
    assert_eq!(r.position_x, 10);
    assert_eq!(r.position_y, -20);
    assert_eq!(r.view_w, 32);
    assert_eq!(r.view_h, 24);
}

#[test]
fn resize_reallocates_targets() {
    let mut r = small_renderer();
    r.resize(6, 4, 8, 6);
    assert_eq!(r.render_w, 6);
    assert_eq!(r.render_h, 4);
    assert_eq!(r.output_w, 8);
    assert_eq!(r.output_h, 6);
    let sdf = SDF::new(64, 64);
    r.update_uniforms(0, 0, 0, 0x100, 0);
    let frame = r.render(&sdf);
    assert_eq!(frame.width, 8);
    assert_eq!(frame.height, 6);
}

#[test]
fn dither_rotation_advances_once_per_frame() {
    let tiles = vec![
        DitherTile { values: vec![0u8; 64 * 64] },
        DitherTile { values: vec![7u8; 64 * 64] },
        DitherTile { values: vec![11u8; 64 * 64] },
    ];
    let mut r = Renderer::new(4, 4, 4, 4, 64, 64, tiles);
    let sdf = SDF::new(64, 64);
    assert_eq!(r.light_map_renderer.blue_noise_index, 0);
    r.update_uniforms(0, 0, 0, 0x100, 0);
    let _ = r.render(&sdf);
    assert_eq!(r.light_map_renderer.blue_noise_index, 1);
    r.update_uniforms(0, 0, 0, 0x100, 0);
    let _ = r.render(&sdf);
    let _ = r.render(&sdf);
    assert_eq!(r.light_map_renderer.blue_noise_index, 0);
}

#[test]
fn terrain_contour_in_composite() {
    // Carve so that one output pixel's field value falls into the surface
    // band: that pixel draws the crisp contour color, while a neighbour
    // just outside the band shows the (unlit, black) lighting.
    let mut sdf = SDF::new(64, 64);
    sdf.add(0, 0, 20); // radius 5, reach 10
    let mut r = small_renderer();
    r.update_upsampler(&Upsampler::BLIT);
    r.update_uniforms(0, 0, 0, 0x100, 0);
    let frame = r.render(&sdf);
    // Pixel (2, 3) sits at world (2, 6): distance floor(sqrt(40)) = 6, so
    // the carved value is 6 - 5 = 1, inside the contour band.
    assert_eq!(frame.get(2, 3), Texel { r: 0xF0, g: 0xF0, b: 0xF0 });
    // Pixel (3, 3) sits at world (6, 6): distance floor(sqrt(72)) = 8,
    // value 3, outside the band.
    assert_eq!(frame.get(3, 3), Texel { r: 0, g: 0, b: 0 });
}
