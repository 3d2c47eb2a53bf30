//! The direct upsampling strategy: a stateless pass-through that resamples
//! the render-resolution frame up to output resolution with nearest
//! sampling, keeping no history.

use vstd::prelude::*;

verus! {

use crate::texture::{Texel, Texture, TEXTURE_LIMIT};

/// The direct upsampler; it owns nothing.
pub struct BLIT {
}

impl BLIT {
    pub fn new() -> (b: Self) {
        BLIT {  }
    }

    /// Resamples the frame up to `ow` by `oh`: each output texel is the
    /// frame texel under it.
    pub fn upsample(&self, color: &Texture, ow: usize, oh: usize) -> (out: Texture)
        requires
            color.wf(),
            1 <= ow <= TEXTURE_LIMIT,
            1 <= oh <= TEXTURE_LIMIT,
        ensures
            out.wf(),
            out.width == ow,
            out.height == oh,
            forall|x: int, y: int| 0 <= x < ow && 0 <= y < oh
                ==> #[trigger] out.at(x, y) == color.sample_spec(x, y, ow as int, oh as int),
    {
        proof {
            assert(ow * oh <= 0x400_0000) by (nonlinear_arith)
                requires
                    ow <= TEXTURE_LIMIT,
                    oh <= TEXTURE_LIMIT,
            ;
        }
        let len = ow * oh;
        let mut texels: Vec<Texel> = Vec::new();
        let mut t: usize = 0;
        while t < len
            invariant
                color.wf(),
                1 <= ow <= TEXTURE_LIMIT,
                1 <= oh <= TEXTURE_LIMIT,
                len == ow * oh,
                t <= len,
                texels@.len() == t,
                forall|j: int| 0 <= j < t ==> #[trigger] texels@[j]
                    == color.sample_spec(j % ow as int, j / ow as int, ow as int, oh as int),
            decreases len - t,
        {
            let x = t % ow;
            let y = t / ow;
            proof {
                assert(y < oh) by (nonlinear_arith)
                    requires
                        t < len,
                        len == ow * oh,
                        y == t as int / ow as int,
                        ow >= 1,
                ;
            }
            texels.push(color.sample_scaled(x, y, ow, oh));
            t = t + 1;
        }
        let out = Texture { width: ow, height: oh, texels };
        proof {
            assert forall|x: int, y: int| 0 <= x < ow && 0 <= y < oh
                implies #[trigger] out.at(x, y) == color.sample_spec(x, y, ow as int, oh as int)
                by {
                let j = y * ow as int + x;
                assert(0 <= j < ow * oh && j % ow as int == x && j / ow as int == y)
                    by (nonlinear_arith)
                    requires
                        0 <= x < ow as int,
                        0 <= y < oh as int,
                        j == y * ow as int + x,
                ;
            }
        }
        out
    }
}

} // verus!
