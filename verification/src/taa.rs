//! The temporal upsampling strategy: two ping-pong history targets at
//! output resolution.  Each frame reads the previous history and the
//! current render-resolution frame, blends them, and the freshly written
//! target becomes this frame's output.  A resize only records the new
//! resolution; the mismatched history target is replaced lazily on the
//! next frame, dropping its contents (an accepted one-frame glitch).

use vstd::prelude::*;

verus! {

use crate::texture::{Texel, Texture, TEXTURE_LIMIT};

/// One output texel: the history leads with a seven-eighths weight, the
/// new frame contributes the rest.
pub open spec fn blend_spec(h: Texel, c: Texel) -> Texel {
    Texel {
        r: ((7 * h.r + c.r) / 8) as u32,
        g: ((7 * h.g + c.g) / 8) as u32,
        b: ((7 * h.b + c.b) / 8) as u32,
    }
}

/// Blends one history texel with one frame texel.
pub fn blend(h: Texel, c: Texel) -> (t: Texel)
    ensures
        t == blend_spec(h, c),
{
    let r = ((7 * h.r as u64 + c.r as u64) / 8) as u32;
    let g = ((7 * h.g as u64 + c.g as u64) / 8) as u32;
    let b = ((7 * h.b as u64 + c.b as u64) / 8) as u32;
    Texel { r, g, b }
}

/// The temporal upsampler's state.
pub struct TAA {
    pub out_width: usize,
    pub out_height: usize,
    pub tex0: Texture,
    pub tex1: Texture,
    pub history_texture_index: usize,
}

impl TAA {
    pub open spec fn wf(self) -> bool {
        &&& 1 <= self.out_width <= TEXTURE_LIMIT
        &&& 1 <= self.out_height <= TEXTURE_LIMIT
        &&& self.history_texture_index <= 1
        &&& self.tex0.wf()
        &&& self.tex1.wf()
    }

    /// The target the latest frame was blended into — this frame's output.
    pub open spec fn output_spec(self) -> Texture {
        if self.history_texture_index == 0 {
            self.tex0
        } else {
            self.tex1
        }
    }

    /// The other target: the history the next frame will read.
    pub open spec fn other_spec(self) -> Texture {
        if self.history_texture_index == 0 {
            self.tex1
        } else {
            self.tex0
        }
    }

    /// Allocates both history targets at the output resolution.
    pub fn new(out_width: usize, out_height: usize) -> (taa: Self)
        requires
            1 <= out_width <= TEXTURE_LIMIT,
            1 <= out_height <= TEXTURE_LIMIT,
        ensures
            taa.wf(),
            taa.out_width == out_width,
            taa.out_height == out_height,
            taa.history_texture_index == 0,
            taa.output_spec().width == out_width,
            taa.output_spec().height == out_height,
            taa.other_spec().width == out_width,
            taa.other_spec().height == out_height,
            forall|i: int| 0 <= i < taa.output_spec().texels@.len()
                ==> #[trigger] taa.output_spec().texels@[i] == (Texel { r: 0, g: 0, b: 0 }),
            forall|i: int| 0 <= i < taa.other_spec().texels@.len()
                ==> #[trigger] taa.other_spec().texels@[i] == (Texel { r: 0, g: 0, b: 0 }),
    {
        TAA {
            out_width,
            out_height,
            tex0: Texture::new_intermediate(out_width, out_height),
            tex1: Texture::new_intermediate(out_width, out_height),
            history_texture_index: 0,
        }
    }

    /// Records the new output resolution; history targets are replaced
    /// lazily when the next frame is rendered.
    pub fn resize(&mut self, out_width: usize, out_height: usize)
        requires
            old(self).wf(),
            1 <= out_width <= TEXTURE_LIMIT,
            1 <= out_height <= TEXTURE_LIMIT,
        ensures
            final(self).wf(),
            final(self).out_width == out_width,
            final(self).out_height == out_height,
            final(self).history_texture_index == old(self).history_texture_index,
            final(self).tex0 == old(self).tex0,
            final(self).tex1 == old(self).tex1,
    {
        self.out_width = out_width;
        self.out_height = out_height;
    }

    /// Blends the previous history with the current frame into the other
    /// target, which becomes the output: after the call the output target
    /// matches the output resolution exactly, and each of its texels is
    /// the blend of the history and the frame sampled under it.
    pub fn render(&mut self, color: &Texture)
        requires
            old(self).wf(),
            color.wf(),
        ensures
            final(self).wf(),
            final(self).out_width == old(self).out_width,
            final(self).out_height == old(self).out_height,
            final(self).history_texture_index == 1 - old(self).history_texture_index,
            final(self).other_spec() == old(self).output_spec(),
            final(self).output_spec().width == old(self).out_width,
            final(self).output_spec().height == old(self).out_height,
            forall|x: int, y: int|
                0 <= x < old(self).out_width && 0 <= y < old(self).out_height
                    ==> #[trigger] final(self).output_spec().at(x, y) == blend_spec(
                        old(self).output_spec().sample_spec(
                            x, y, old(self).out_width as int, old(self).out_height as int,
                        ),
                        color.sample_spec(
                            x, y, old(self).out_width as int, old(self).out_height as int,
                        ),
                    ),
    {
        let ow = self.out_width;
        let oh = self.out_height;
        proof {
            assert(ow * oh <= 0x400_0000) by (nonlinear_arith)
                requires
                    ow <= TEXTURE_LIMIT,
                    oh <= TEXTURE_LIMIT,
            ;
        }
        let len = ow * oh;
        let history = if self.history_texture_index == 0 { &self.tex0 } else { &self.tex1 };
        let mut texels: Vec<Texel> = Vec::new();
        let mut t: usize = 0;
        while t < len
            invariant
                self == old(self),
                self.wf(),
                color.wf(),
                ow == self.out_width,
                oh == self.out_height,
                len == ow * oh,
                history == self.output_spec(),
                history.wf(),
                t <= len,
                texels@.len() == t,
                forall|j: int| 0 <= j < t ==> #[trigger] texels@[j] == blend_spec(
                    self.output_spec().sample_spec(j % ow as int, j / ow as int, ow as int, oh as int),
                    color.sample_spec(j % ow as int, j / ow as int, ow as int, oh as int),
                ),
            decreases len - t,
        {
            let x = t % ow;
            let y = t / ow;
            proof {
                assert(y < oh) by (nonlinear_arith)
                    requires
                        t < len,
                        len == ow * oh,
                        y == t as int / ow as int,
                        ow >= 1,
                ;
            }
            let h = history.sample_scaled(x, y, ow, oh);
            let c = color.sample_scaled(x, y, ow, oh);
            texels.push(blend(h, c));
            t = t + 1;
        }
        let fresh = Texture { width: ow, height: oh, texels };
        if self.history_texture_index == 0 {
            self.tex1 = fresh;
            self.history_texture_index = 1;
        } else {
            self.tex0 = fresh;
            self.history_texture_index = 0;
        }
        proof {
            assert forall|x: int, y: int|
                0 <= x < ow && 0 <= y < oh
                implies #[trigger] self.output_spec().at(x, y) == blend_spec(
                    old(self).output_spec().sample_spec(x, y, ow as int, oh as int),
                    color.sample_spec(x, y, ow as int, oh as int),
                ) by {
                let j = y * ow as int + x;
                assert(0 <= j < ow * oh && j % ow as int == x && j / ow as int == y)
                    by (nonlinear_arith)
                    requires
                        0 <= x < ow as int,
                        0 <= y < oh as int,
                        j == y * ow as int + x,
                ;
            }
        }
    }

    /// The target holding the latest blended frame.
    pub fn output(&self) -> (t: &Texture)
        ensures
            t == self.output_spec(),
    {
        if self.history_texture_index == 0 { &self.tex0 } else { &self.tex1 }
    }
}

} // verus!
