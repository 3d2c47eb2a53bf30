//! Scene list management: appending lights and shapes under their fixed
//! maxima, and stamping out the multi-part template figure.  An append
//! beyond a cap quietly drops the excess — the collection never grows past
//! its maximum.

use vstd::prelude::*;

verus! {

use crate::light::{LightData, MAX_LIGHTS};
use crate::shape::{ShapeData, ShapeKind, Point3, SHAPE_LIMIT, pack_rgb_spec};
use crate::bvh::MAX_SHAPES;

/// Appends one light if the list is below its cap; a full list is left as
/// it is, so the length never exceeds `MAX_LIGHTS`.
pub fn push_light(lights: &mut Vec<LightData>, light: LightData)
    requires
        old(lights)@.len() <= MAX_LIGHTS,
    ensures
        old(lights)@.len() < MAX_LIGHTS ==> final(lights)@ == old(lights)@.push(light),
        old(lights)@.len() == MAX_LIGHTS ==> final(lights)@ == old(lights)@,
        final(lights)@.len() <= MAX_LIGHTS,
{
    if lights.len() < MAX_LIGHTS {
        lights.push(light);
    }
}

/// Appends one shape if the list is below its cap; a full list is left as
/// it is, so the length never exceeds `MAX_SHAPES`.
pub fn push_shape(shapes: &mut Vec<ShapeData>, shape: ShapeData)
    requires
        old(shapes)@.len() <= MAX_SHAPES,
    ensures
        old(shapes)@.len() < MAX_SHAPES ==> final(shapes)@ == old(shapes)@.push(shape),
        old(shapes)@.len() == MAX_SHAPES ==> final(shapes)@ == old(shapes)@,
        final(shapes)@.len() <= MAX_SHAPES,
{
    if shapes.len() < MAX_SHAPES {
        shapes.push(shape);
    }
}

/// The point `offset` away from `position`.
pub open spec fn part_point(position: Point3, x: int, y: int, z: int) -> Point3 {
    Point3 {
        x: (position.x + x) as i64,
        y: (position.y + y) as i64,
        z: (position.z + z) as i64,
    }
}

/// One rounded-cone part of the template figure, anchored at `position`.
pub open spec fn cone_part(
    position: Point3, ax: int, ay: int, az: int, ra: int, bx: int, by: int, bz: int, rb: int,
    red: u8, green: u8, blue: u8, roughness: u8,
) -> ShapeData {
    ShapeData {
        kind: ShapeKind::RoundedCone,
        color: pack_rgb_spec(red, green, blue),
        metallic: 0,
        roughness,
        a: part_point(position, ax, ay, az),
        ra: ra as i64,
        b: part_point(position, bx, by, bz),
        rb: rb as i64,
    }
}

/// One sphere part of the template figure, anchored at `position`.  The
/// unused second end rides along at the anchor with radius zero.
pub open spec fn bead_part(
    position: Point3, ax: int, ay: int, az: int, ra: int,
    red: u8, green: u8, blue: u8, roughness: u8,
) -> ShapeData {
    ShapeData {
        kind: ShapeKind::Sphere,
        color: pack_rgb_spec(red, green, blue),
        metallic: 0,
        roughness,
        a: part_point(position, ax, ay, az),
        ra: ra as i64,
        b: part_point(position, 0, 0, 0),
        rb: 0,
    }
}

/// Part `k` of the template figure: the body, the snout, three beads, two
/// ears, the belly, the tail and the two feet.
pub open spec fn entity_part_spec(position: Point3, k: int) -> ShapeData {
    if k == 0 {
        cone_part(position, 0, 0, 35, 35, 0, 0, 60, 25, 0xFF, 0x80, 0, 0xCC)
    } else if k == 1 {
        cone_part(position, 0, 0, 60, 15, 32, 0, 60, 8, 0xCC, 0xCC, 0xCC, 0xCC)
    } else if k == 2 {
        bead_part(position, 36, 0, 66, 3, 0, 0, 0, 0x33)
    } else if k == 3 {
        bead_part(position, 19, 10, 70, 3, 0, 0, 0, 0x33)
    } else if k == 4 {
        bead_part(position, 19, -10, 70, 3, 0, 0, 0, 0x33)
    } else if k == 5 {
        cone_part(position, 0, -15, 40, 20, 0, -45, 45, 8, 0xFF, 0x80, 0, 0xCC)
    } else if k == 6 {
        cone_part(position, 0, 15, 40, 20, 0, 45, 45, 8, 0xFF, 0x80, 0, 0xCC)
    } else if k == 7 {
        bead_part(position, 7, 0, 33, 30, 0xCC, 0xCC, 0xCC, 0x33)
    } else if k == 8 {
        cone_part(position, 0, 0, 35, 20, -30, 0, 10, 5, 0xFF, 0x80, 0, 0xCC)
    } else if k == 9 {
        cone_part(position, -5, -15, 5, 10, 20, -20, 1, 10, 0xFF, 0x80, 0, 0xCC)
    } else {
        cone_part(position, -5, 15, 5, 10, 20, 20, 1, 10, 0xFF, 0x80, 0, 0xCC)
    }
}

/// How many parts the template figure has.
pub const ENTITY_PARTS: usize = 11;

/// Builds the template figure — a body, a snout, three eye-like beads, two
/// ears, a belly, a tail and two feet, in hundredth-unit offsets scaled to
/// whole world units — translated to stand at `position`.
pub fn entity_parts(position: Point3) -> (parts: Vec<ShapeData>)
    requires
        -SHAPE_LIMIT + 0x100 <= position.x <= SHAPE_LIMIT - 0x100,
        -SHAPE_LIMIT + 0x100 <= position.y <= SHAPE_LIMIT - 0x100,
        -SHAPE_LIMIT + 0x100 <= position.z <= SHAPE_LIMIT - 0x100,
    ensures
        parts@.len() == ENTITY_PARTS,
        forall|k: int| 0 <= k < parts@.len() ==> (#[trigger] parts@[k]).wf(),
        forall|k: int| 0 <= k < parts@.len()
            ==> #[trigger] parts@[k] == entity_part_spec(position, k),
{
    let mut parts: Vec<ShapeData> = Vec::new();
    let mut s = ShapeData::new();
    s.update_rounded_cone(
        Point3 { x: 0, y: 0, z: 35 }, 35, Point3 { x: 0, y: 0, z: 60 }, 25,
        0xFF, 0x80, 0, 0, 0xCC,
    );
    s.translate(position);
    parts.push(s);
    let mut s = ShapeData::new();
    s.update_rounded_cone(
        Point3 { x: 0, y: 0, z: 60 }, 15, Point3 { x: 32, y: 0, z: 60 }, 8,
        0xCC, 0xCC, 0xCC, 0, 0xCC,
    );
    s.translate(position);
    parts.push(s);
    let mut s = ShapeData::new();
    s.update_sphere(Point3 { x: 36, y: 0, z: 66 }, 3, 0, 0, 0, 0, 0x33);
    s.translate(position);
    parts.push(s);
    let mut s = ShapeData::new();
    s.update_sphere(Point3 { x: 19, y: 10, z: 70 }, 3, 0, 0, 0, 0, 0x33);
    s.translate(position);
    parts.push(s);
    let mut s = ShapeData::new();
    s.update_sphere(Point3 { x: 19, y: -10, z: 70 }, 3, 0, 0, 0, 0, 0x33);
    s.translate(position);
    parts.push(s);
    let mut s = ShapeData::new();
    s.update_rounded_cone(
        Point3 { x: 0, y: -15, z: 40 }, 20, Point3 { x: 0, y: -45, z: 45 }, 8,
        0xFF, 0x80, 0, 0, 0xCC,
    );
    s.translate(position);
    parts.push(s);
    let mut s = ShapeData::new();
    s.update_rounded_cone(
        Point3 { x: 0, y: 15, z: 40 }, 20, Point3 { x: 0, y: 45, z: 45 }, 8,
        0xFF, 0x80, 0, 0, 0xCC,
    );
    s.translate(position);
    parts.push(s);
    let mut s = ShapeData::new();
    s.update_sphere(Point3 { x: 7, y: 0, z: 33 }, 30, 0xCC, 0xCC, 0xCC, 0, 0x33);
    s.translate(position);
    parts.push(s);
    let mut s = ShapeData::new();
    s.update_rounded_cone(
        Point3 { x: 0, y: 0, z: 35 }, 20, Point3 { x: -30, y: 0, z: 10 }, 5,
        0xFF, 0x80, 0, 0, 0xCC,
    );
    s.translate(position);
    parts.push(s);
    let mut s = ShapeData::new();
    s.update_rounded_cone(
        Point3 { x: -5, y: -15, z: 5 }, 10, Point3 { x: 20, y: -20, z: 1 }, 10,
        0xFF, 0x80, 0, 0, 0xCC,
    );
    s.translate(position);
    parts.push(s);
    let mut s = ShapeData::new();
    s.update_rounded_cone(
        Point3 { x: -5, y: 15, z: 5 }, 10, Point3 { x: 20, y: 20, z: 1 }, 10,
        0xFF, 0x80, 0, 0, 0xCC,
    );
    s.translate(position);
    parts.push(s);
    parts
}

/// Appends the template figure if all of its parts fit under the cap; a
/// list without room is left untouched.
pub fn add_entity(shapes: &mut Vec<ShapeData>, position: Point3)
    requires
        old(shapes)@.len() <= MAX_SHAPES,
        -SHAPE_LIMIT + 0x100 <= position.x <= SHAPE_LIMIT - 0x100,
        -SHAPE_LIMIT + 0x100 <= position.y <= SHAPE_LIMIT - 0x100,
        -SHAPE_LIMIT + 0x100 <= position.z <= SHAPE_LIMIT - 0x100,
    ensures
        final(shapes)@.len() <= MAX_SHAPES,
        final(shapes)@.subrange(0, old(shapes)@.len() as int) == old(shapes)@,
        old(shapes)@.len() + ENTITY_PARTS <= MAX_SHAPES
            ==> final(shapes)@ == old(shapes)@
                + Seq::new(ENTITY_PARTS as nat, |k: int| entity_part_spec(position, k)),
        old(shapes)@.len() + ENTITY_PARTS > MAX_SHAPES
            ==> final(shapes)@ == old(shapes)@,
        forall|k: int| old(shapes)@.len() <= k < final(shapes)@.len()
            ==> (#[trigger] final(shapes)@[k]).wf(),
{
    if shapes.len() + ENTITY_PARTS <= MAX_SHAPES {
        let parts = entity_parts(position);
        let ghost base = shapes@;
        let mut k: usize = 0;
        while k < parts.len()
            invariant
                k <= parts@.len(),
                parts@.len() == ENTITY_PARTS,
                base.len() + ENTITY_PARTS <= MAX_SHAPES,
                shapes@.len() == base.len() + k,
                shapes@.subrange(0, base.len() as int) == base,
                forall|q: int| 0 <= q < parts@.len() ==> (#[trigger] parts@[q]).wf(),
                forall|q: int| 0 <= q < parts@.len()
                    ==> #[trigger] parts@[q] == entity_part_spec(position, q),
                forall|q: int| base.len() <= q < shapes@.len()
                    ==> (#[trigger] shapes@[q]).wf(),
                forall|q: int| base.len() <= q < shapes@.len()
                    ==> #[trigger] shapes@[q] == parts@[q - base.len() as int],
            decreases parts@.len() - k,
        {
            shapes.push(parts[k]);
            proof {
                assert(shapes@.subrange(0, base.len() as int) =~= base);
            }
            k = k + 1;
        }
        proof {
            assert(shapes@ =~= base
                + Seq::new(ENTITY_PARTS as nat, |q: int| entity_part_spec(position, q))) by {
                assert(forall|i: int| 0 <= i < base.len()
                    ==> #[trigger] shapes@[i] == base[i]) by {
                    assert(forall|i: int| 0 <= i < base.len()
                        ==> shapes@.subrange(0, base.len() as int)[i] == #[trigger] shapes@[i]);
                }
            }
        }
    } else {
        proof {
            assert(shapes@.subrange(0, old(shapes)@.len() as int) =~= old(shapes)@);
        }
    }
}

} // verus!
