//! Implicit-surface shapes: spheres and rounded cones, each carrying a
//! packed material, stored as plain values in a flat insertion-ordered
//! list.  A shape's index in that list is its identity for the frame.

use vstd::prelude::*;

verus! {

/// Shape coordinates and radii stay within this magnitude, which keeps all
/// bounding-box arithmetic exact.
pub const SHAPE_LIMIT: i64 = 0x10_0000;

/// A point or offset in world space; `z` is the synthetic depth axis.
#[derive(Clone, Copy, Debug, PartialEq, Eq, Structural)]
pub struct Point3 {
    pub x: i64,
    pub y: i64,
    pub z: i64,
}

/// An axis-aligned bounding box, stored as inclusive min/max corners.
#[derive(Clone, Copy, Debug, PartialEq, Eq, Structural)]
pub struct Aabb {
    pub min: Point3,
    pub max: Point3,
}

impl Aabb {
    /// `other` lies entirely inside `self`.
    pub open spec fn contains_box(self, other: Aabb) -> bool {
        &&& self.min.x <= other.min.x && other.max.x <= self.max.x
        &&& self.min.y <= other.min.y && other.max.y <= self.max.y
        &&& self.min.z <= other.min.z && other.max.z <= self.max.z
    }

    /// The point `(px, py)` lies inside the box's x/y footprint.
    pub open spec fn contains_xy(self, px: int, py: int) -> bool {
        &&& self.min.x <= px <= self.max.x
        &&& self.min.y <= py <= self.max.y
    }

    /// The smallest box holding both inputs.
    pub open spec fn union_spec(a: Aabb, b: Aabb) -> Aabb {
        Aabb {
            min: Point3 {
                x: if a.min.x <= b.min.x { a.min.x } else { b.min.x },
                y: if a.min.y <= b.min.y { a.min.y } else { b.min.y },
                z: if a.min.z <= b.min.z { a.min.z } else { b.min.z },
            },
            max: Point3 {
                x: if a.max.x >= b.max.x { a.max.x } else { b.max.x },
                y: if a.max.y >= b.max.y { a.max.y } else { b.max.y },
                z: if a.max.z >= b.max.z { a.max.z } else { b.max.z },
            },
        }
    }

    /// Computes the union box; it contains both inputs.
    pub fn union(a: &Aabb, b: &Aabb) -> (r: Aabb)
        ensures
            r == Aabb::union_spec(*a, *b),
            r.contains_box(*a),
            r.contains_box(*b),
    {
        Aabb {
            min: Point3 {
                x: if a.min.x <= b.min.x { a.min.x } else { b.min.x },
                y: if a.min.y <= b.min.y { a.min.y } else { b.min.y },
                z: if a.min.z <= b.min.z { a.min.z } else { b.min.z },
            },
            max: Point3 {
                x: if a.max.x >= b.max.x { a.max.x } else { b.max.x },
                y: if a.max.y >= b.max.y { a.max.y } else { b.max.y },
                z: if a.max.z >= b.max.z { a.max.z } else { b.max.z },
            },
        }
    }
}

/// Which primitive a `ShapeData` is.
#[derive(Clone, Copy, Debug, PartialEq, Eq, Structural)]
pub enum ShapeKind {
    Sphere,
    RoundedCone,
}

/// One shape: the discriminant picks the primitive, `a`/`ra` describe a
/// sphere, and a rounded cone additionally uses the second end `b`/`rb`.
/// The material is a packed color plus metallic and roughness bytes.
#[derive(Clone, Copy, Debug, PartialEq, Eq, Structural)]
pub struct ShapeData {
    pub kind: ShapeKind,
    pub color: u32,
    pub metallic: u8,
    pub roughness: u8,
    pub a: Point3,
    pub ra: i64,
    pub b: Point3,
    pub rb: i64,
}

/// Packs three 8-bit channels into a little-endian word, low byte red.
pub open spec fn pack_rgb_spec(r: u8, g: u8, b: u8) -> u32 {
    (r + g * 0x100 + b * 0x1_0000) as u32
}

/// Packs a color the way the shape buffer stores it.
pub fn pack_rgb(r: u8, g: u8, b: u8) -> (c: u32)
    ensures
        c == pack_rgb_spec(r, g, b),
{
    r as u32 + g as u32 * 0x100 + b as u32 * 0x1_0000
}

impl ShapeData {
    /// Every coordinate and radius is within `SHAPE_LIMIT` and radii are
    /// non-negative, so box arithmetic on the shape cannot overflow.
    pub open spec fn wf(self) -> bool {
        &&& -SHAPE_LIMIT <= self.a.x <= SHAPE_LIMIT
        &&& -SHAPE_LIMIT <= self.a.y <= SHAPE_LIMIT
        &&& -SHAPE_LIMIT <= self.a.z <= SHAPE_LIMIT
        &&& -SHAPE_LIMIT <= self.b.x <= SHAPE_LIMIT
        &&& -SHAPE_LIMIT <= self.b.y <= SHAPE_LIMIT
        &&& -SHAPE_LIMIT <= self.b.z <= SHAPE_LIMIT
        &&& 0 <= self.ra <= SHAPE_LIMIT
        &&& 0 <= self.rb <= SHAPE_LIMIT
    }

    /// The box of the first end sphere.
    pub open spec fn sphere_a_box(self) -> Aabb {
        Aabb {
            min: Point3 {
                x: (self.a.x - self.ra) as i64,
                y: (self.a.y - self.ra) as i64,
                z: (self.a.z - self.ra) as i64,
            },
            max: Point3 {
                x: (self.a.x + self.ra) as i64,
                y: (self.a.y + self.ra) as i64,
                z: (self.a.z + self.ra) as i64,
            },
        }
    }

    /// The box of the second end sphere.
    pub open spec fn sphere_b_box(self) -> Aabb {
        Aabb {
            min: Point3 {
                x: (self.b.x - self.rb) as i64,
                y: (self.b.y - self.rb) as i64,
                z: (self.b.z - self.rb) as i64,
            },
            max: Point3 {
                x: (self.b.x + self.rb) as i64,
                y: (self.b.y + self.rb) as i64,
                z: (self.b.z + self.rb) as i64,
            },
        }
    }

    /// A sphere's box is `center ± radius`; a rounded cone's is the union
    /// of its two end spheres' boxes.
    pub open spec fn aabb_spec(self) -> Aabb {
        match self.kind {
            ShapeKind::Sphere => self.sphere_a_box(),
            ShapeKind::RoundedCone => Aabb::union_spec(self.sphere_a_box(), self.sphere_b_box()),
        }
    }

    /// A fresh shape: a sphere of radius zero at the origin with a black,
    /// fully rough material.
    pub fn new() -> (s: Self)
        ensures
            s.wf(),
            s.kind == ShapeKind::Sphere,
            s.color == 0,
            s.metallic == 0,
            s.roughness == 0,
            s.a == (Point3 { x: 0, y: 0, z: 0 }),
            s.ra == 0,
            s.b == (Point3 { x: 0, y: 0, z: 0 }),
            s.rb == 0,
    {
        ShapeData {
            kind: ShapeKind::Sphere,
            color: 0,
            metallic: 0,
            roughness: 0,
            a: Point3 { x: 0, y: 0, z: 0 },
            ra: 0,
            b: Point3 { x: 0, y: 0, z: 0 },
            rb: 0,
        }
    }

    /// Turns the shape into a sphere with the given geometry and material.
    pub fn update_sphere(
        &mut self, position: Point3, radius: i64,
        red: u8, green: u8, blue: u8, metallic: u8, roughness: u8,
    )
        requires
            old(self).wf(),
            -SHAPE_LIMIT <= position.x <= SHAPE_LIMIT,
            -SHAPE_LIMIT <= position.y <= SHAPE_LIMIT,
            -SHAPE_LIMIT <= position.z <= SHAPE_LIMIT,
            0 <= radius <= SHAPE_LIMIT,
        ensures
            final(self).wf(),
            final(self).kind == ShapeKind::Sphere,
            final(self).a == position,
            final(self).ra == radius,
            final(self).color == pack_rgb_spec(red, green, blue),
            final(self).metallic == metallic,
            final(self).roughness == roughness,
            final(self).b == old(self).b,
            final(self).rb == old(self).rb,
    {
        self.kind = ShapeKind::Sphere;
        self.color = pack_rgb(red, green, blue);
        self.metallic = metallic;
        self.roughness = roughness;
        self.a = position;
        self.ra = radius;
    }

    /// Turns the shape into a rounded cone spanning the two end spheres.
    pub fn update_rounded_cone(
        &mut self, position_a: Point3, radius_a: i64, position_b: Point3, radius_b: i64,
        red: u8, green: u8, blue: u8, metallic: u8, roughness: u8,
    )
        requires
            -SHAPE_LIMIT <= position_a.x <= SHAPE_LIMIT,
            -SHAPE_LIMIT <= position_a.y <= SHAPE_LIMIT,
            -SHAPE_LIMIT <= position_a.z <= SHAPE_LIMIT,
            -SHAPE_LIMIT <= position_b.x <= SHAPE_LIMIT,
            -SHAPE_LIMIT <= position_b.y <= SHAPE_LIMIT,
            -SHAPE_LIMIT <= position_b.z <= SHAPE_LIMIT,
            0 <= radius_a <= SHAPE_LIMIT,
            0 <= radius_b <= SHAPE_LIMIT,
        ensures
            final(self).wf(),
            final(self).kind == ShapeKind::RoundedCone,
            final(self).a == position_a,
            final(self).ra == radius_a,
            final(self).b == position_b,
            final(self).rb == radius_b,
            final(self).color == pack_rgb_spec(red, green, blue),
            final(self).metallic == metallic,
            final(self).roughness == roughness,
    {
        self.kind = ShapeKind::RoundedCone;
        self.color = pack_rgb(red, green, blue);
        self.metallic = metallic;
        self.roughness = roughness;
        self.a = position_a;
        self.ra = radius_a;
        self.b = position_b;
        self.rb = radius_b;
    }

    /// Moves both end points by the given offset.
    pub fn translate(&mut self, offset: Point3)
        requires
            old(self).wf(),
            -SHAPE_LIMIT <= old(self).a.x + offset.x <= SHAPE_LIMIT,
            -SHAPE_LIMIT <= old(self).a.y + offset.y <= SHAPE_LIMIT,
            -SHAPE_LIMIT <= old(self).a.z + offset.z <= SHAPE_LIMIT,
            -SHAPE_LIMIT <= old(self).b.x + offset.x <= SHAPE_LIMIT,
            -SHAPE_LIMIT <= old(self).b.y + offset.y <= SHAPE_LIMIT,
            -SHAPE_LIMIT <= old(self).b.z + offset.z <= SHAPE_LIMIT,
        ensures
            final(self).wf(),
            final(self).a.x == old(self).a.x + offset.x,
            final(self).a.y == old(self).a.y + offset.y,
            final(self).a.z == old(self).a.z + offset.z,
            final(self).b.x == old(self).b.x + offset.x,
            final(self).b.y == old(self).b.y + offset.y,
            final(self).b.z == old(self).b.z + offset.z,
            final(self).kind == old(self).kind,
            final(self).color == old(self).color,
            final(self).metallic == old(self).metallic,
            final(self).roughness == old(self).roughness,
            final(self).ra == old(self).ra,
            final(self).rb == old(self).rb,
    {
        self.a = Point3 {
            x: self.a.x + offset.x,
            y: self.a.y + offset.y,
            z: self.a.z + offset.z,
        };
        self.b = Point3 {
            x: self.b.x + offset.x,
            y: self.b.y + offset.y,
            z: self.b.z + offset.z,
        };
    }

    /// Computes the shape's bounding box.
    pub fn aabb(&self) -> (r: Aabb)
        requires
            self.wf(),
        ensures
            r == self.aabb_spec(),
    {
        match self.kind {
            ShapeKind::Sphere => Aabb {
                min: Point3 { x: self.a.x - self.ra, y: self.a.y - self.ra, z: self.a.z - self.ra },
                max: Point3 { x: self.a.x + self.ra, y: self.a.y + self.ra, z: self.a.z + self.ra },
            },
            ShapeKind::RoundedCone => {
                let box_a = Aabb {
                    min: Point3 {
                        x: self.a.x - self.ra, y: self.a.y - self.ra, z: self.a.z - self.ra,
                    },
                    max: Point3 {
                        x: self.a.x + self.ra, y: self.a.y + self.ra, z: self.a.z + self.ra,
                    },
                };
                let box_b = Aabb {
                    min: Point3 {
                        x: self.b.x - self.rb, y: self.b.y - self.rb, z: self.b.z - self.rb,
                    },
                    max: Point3 {
                        x: self.b.x + self.rb, y: self.b.y + self.rb, z: self.b.z + self.rb,
                    },
                };
                Aabb::union(&box_a, &box_b)
            },
        }
    }
}

/// One flattened hierarchy node: a bounding box and the two traversal
/// links.  A non-negative `entry` is the index of the node's first child; a
/// negative `entry` marks a leaf whose shape index is the bitwise negation
/// of `entry`.  `exit` is the index just past the node's whole subtree —
/// where traversal continues when the node is skipped or done.
#[derive(Clone, Copy, Debug, PartialEq, Eq, Structural)]
pub struct ShapeBVHNode {
    pub aabb: Aabb,
    pub entry: i32,
    pub exit: i32,
}

/// The per-frame shape buffer header: how many shapes and how many
/// hierarchy nodes are live.
#[derive(Clone, Copy, Debug, PartialEq, Eq, Structural)]
pub struct ShapesConfig {
    pub num_shapes: u32,
    pub num_bvh_nodes: u32,
}

impl Default for ShapesConfig {
    /// An empty shape buffer.
    fn default() -> (c: Self)
        ensures
            c.num_shapes == 0,
            c.num_bvh_nodes == 0,
    {
        ShapesConfig { num_shapes: 0, num_bvh_nodes: 0 }
    }
}

} // verus!
