//! CPU-side render targets: rectangular buffers of RGB texels.  Targets
//! are never resized in place; a resize drops the old buffer and allocates
//! a fresh one at the new dimensions.

use vstd::prelude::*;

verus! {

/// One texel, linear RGB with headroom for high-dynamic-range light sums.
#[derive(Clone, Copy, Debug, PartialEq, Eq, Structural)]
pub struct Texel {
    pub r: u32,
    pub g: u32,
    pub b: u32,
}

/// Upper bound on either target dimension.
pub const TEXTURE_LIMIT: usize = 8192;

/// A render target at a fixed resolution, texels row-major.
pub struct Texture {
    pub width: usize,
    pub height: usize,
    pub texels: Vec<Texel>,
}

impl Texture {
    pub open spec fn wf(self) -> bool {
        &&& 1 <= self.width <= TEXTURE_LIMIT
        &&& 1 <= self.height <= TEXTURE_LIMIT
        &&& self.texels@.len() == self.width * self.height
    }

    /// The texel at `(x, y)`.
    pub open spec fn at(self, x: int, y: int) -> Texel {
        self.texels@[y * self.width as int + x]
    }

    /// Allocates a black target of the given size.
    pub fn new_intermediate(width: usize, height: usize) -> (t: Self)
        requires
            1 <= width <= TEXTURE_LIMIT,
            1 <= height <= TEXTURE_LIMIT,
        ensures
            t.wf(),
            t.width == width,
            t.height == height,
            forall|i: int| 0 <= i < t.texels@.len()
                ==> #[trigger] t.texels@[i] == (Texel { r: 0, g: 0, b: 0 }),
    {
        proof {
            assert(width * height <= 0x400_0000) by (nonlinear_arith)
                requires
                    width <= TEXTURE_LIMIT,
                    height <= TEXTURE_LIMIT,
            ;
        }
        let len = width * height;
        let mut texels: Vec<Texel> = Vec::new();
        let mut i: usize = 0;
        while i < len
            invariant
                i <= len,
                texels@.len() == i,
                forall|j: int| 0 <= j < i
                    ==> #[trigger] texels@[j] == (Texel { r: 0, g: 0, b: 0 }),
            decreases len - i,
        {
            texels.push(Texel { r: 0, g: 0, b: 0 });
            i = i + 1;
        }
        Texture { width, height, texels }
    }

    /// The texel of `self` under the pixel `(x, y)` of an overlaid grid of
    /// `ow` by `oh` pixels (nearest sampling, coordinates scaled down).
    pub open spec fn sample_spec(self, x: int, y: int, ow: int, oh: int) -> Texel {
        self.at(x * self.width as int / ow, y * self.height as int / oh)
    }

    /// Samples the target at a pixel of an overlaid `ow` by `oh` grid.
    pub fn sample_scaled(&self, x: usize, y: usize, ow: usize, oh: usize) -> (t: Texel)
        requires
            self.wf(),
            x < ow <= TEXTURE_LIMIT,
            y < oh <= TEXTURE_LIMIT,
        ensures
            t == self.sample_spec(x as int, y as int, ow as int, oh as int),
    {
        proof {
            assert(x * self.width as int <= TEXTURE_LIMIT * TEXTURE_LIMIT
                && y * self.height as int <= TEXTURE_LIMIT * TEXTURE_LIMIT) by (nonlinear_arith)
                requires
                    0 <= x <= TEXTURE_LIMIT,
                    0 <= y <= TEXTURE_LIMIT,
                    0 <= self.width as int <= TEXTURE_LIMIT,
                    0 <= self.height as int <= TEXTURE_LIMIT,
            ;
        }
        let sx = x * self.width / ow;
        let sy = y * self.height / oh;
        proof {
            assert(sx < self.width as int && sy < self.height as int) by (nonlinear_arith)
                requires
                    0 < ow,
                    0 < oh,
                    x < ow,
                    y < oh,
                    0 < self.width,
                    0 < self.height,
                    sx == x * self.width as int / ow as int,
                    sy == y * self.height as int / oh as int,
            ;
        }
        self.get(sx, sy)
    }

    /// Reads the texel at `(x, y)`.
    pub fn get(&self, x: usize, y: usize) -> (t: Texel)
        requires
            self.wf(),
            x < self.width,
            y < self.height,
        ensures
            t == self.at(x as int, y as int),
    {
        proof {
            assert(y * self.width as int + x < self.width * self.height
                && 0 <= y * self.width as int + x
                && self.width * self.height <= 0x400_0000) by (nonlinear_arith)
                requires
                    0 <= x < self.width as int,
                    0 <= y < self.height as int,
                    self.width <= TEXTURE_LIMIT,
                    self.height <= TEXTURE_LIMIT,
            ;
        }
        self.texels[y * self.width + x]
    }
}

} // verus!
