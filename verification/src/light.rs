//! Point-light emitters: a linear RGB color, a world position, the radius
//! of the visually solid emitter, and the falloff range beyond which the
//! light contributes nothing.

use vstd::prelude::*;

verus! {

use crate::mathx::POINT_LIMIT;

/// At most this many emitters are live at once.
pub const MAX_LIGHTS: usize = 1024;

/// Light color channels stay below this (linear HDR, 8 fractional bits).
pub const LIGHT_COLOR_LIMIT: u32 = 0x100_0000;

/// Light radii and ranges stay within this magnitude.
pub const LIGHT_RANGE_LIMIT: i64 = 0x10_0000;

/// One emitter.
#[derive(Clone, Copy, Debug, PartialEq, Eq, Structural)]
pub struct LightData {
    pub red: u32,
    pub green: u32,
    pub blue: u32,
    pub x: i64,
    pub y: i64,
    pub radius: i64,
    pub range: i64,
}

impl LightData {
    pub open spec fn wf(self) -> bool {
        &&& self.red <= LIGHT_COLOR_LIMIT
        &&& self.green <= LIGHT_COLOR_LIMIT
        &&& self.blue <= LIGHT_COLOR_LIMIT
        &&& -POINT_LIMIT <= self.x <= POINT_LIMIT
        &&& -POINT_LIMIT <= self.y <= POINT_LIMIT
        &&& 0 <= self.radius <= self.range <= LIGHT_RANGE_LIMIT
    }

    /// A new emitter with the given color, position, emitter radius and
    /// falloff range.
    pub fn new(red: u32, green: u32, blue: u32, x: i64, y: i64, radius: i64, range: i64) -> (l: Self)
        requires
            red <= LIGHT_COLOR_LIMIT,
            green <= LIGHT_COLOR_LIMIT,
            blue <= LIGHT_COLOR_LIMIT,
            -POINT_LIMIT <= x <= POINT_LIMIT,
            -POINT_LIMIT <= y <= POINT_LIMIT,
            0 <= radius <= range <= LIGHT_RANGE_LIMIT,
        ensures
            l.wf(),
            l == (LightData { red, green, blue, x, y, radius, range }),
    {
        LightData { red, green, blue, x, y, radius, range }
    }

    /// Overwrites every parameter of the emitter.
    pub fn update(&mut self, red: u32, green: u32, blue: u32, x: i64, y: i64, radius: i64, range: i64)
        requires
            red <= LIGHT_COLOR_LIMIT,
            green <= LIGHT_COLOR_LIMIT,
            blue <= LIGHT_COLOR_LIMIT,
            -POINT_LIMIT <= x <= POINT_LIMIT,
            -POINT_LIMIT <= y <= POINT_LIMIT,
            0 <= radius <= range <= LIGHT_RANGE_LIMIT,
        ensures
            final(self).wf(),
            *final(self) == (LightData { red, green, blue, x, y, radius, range }),
    {
        self.red = red;
        self.green = green;
        self.blue = blue;
        self.x = x;
        self.y = y;
        self.radius = radius;
        self.range = range;
    }
}

impl Default for LightData {
    /// A white emitter of radius zero and unit range at the origin.
    fn default() -> (l: Self)
        ensures
            l.wf(),
            l.red == 0x100 && l.green == 0x100 && l.blue == 0x100,
            l.x == 0 && l.y == 0,
            l.radius == 0 && l.range == 1,
    {
        LightData { red: 0x100, green: 0x100, blue: 0x100, x: 0, y: 0, radius: 0, range: 1 }
    }
}

/// The per-frame light buffer header: how many emitters are live.
#[derive(Clone, Copy, Debug, PartialEq, Eq, Structural)]
pub struct LightsConfig {
    pub num_lights: u32,
}

impl Default for LightsConfig {
    /// An empty light buffer.
    fn default() -> (c: Self)
        ensures
            c.num_lights == 0,
    {
        LightsConfig { num_lights: 0 }
    }
}

} // verus!
