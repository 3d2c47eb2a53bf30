use sculptfield::shape::{Aabb, Point3, ShapeData, ShapeKind, ShapesConfig, pack_rgb};
use sculptfield::bvh::{build, traverse_all, query_xy, MAX_SHAPES};
use sculptfield::scene::{push_shape, push_light, add_entity, ENTITY_PARTS};
use sculptfield::light::{LightData, LightsConfig, MAX_LIGHTS};

fn sphere(x: i64, y: i64, z: i64, r: i64) -> ShapeData {
    let mut s = ShapeData::new();
    s.update_sphere(Point3 { x, y, z }, r, 0xFF, 0x80, 0x40, 0, 0x33);
    s
}

#[test]
fn pack_rgb_little_endian() {
    assert_eq!(pack_rgb(1, 2, 3), 1 + 2 * 0x100 + 3 * 0x1_0000);
    assert_eq!(pack_rgb(0xFF, 0, 0), 0xFF);
    assert_eq!(pack_rgb(0, 0, 0xFF), 0xFF_0000);
}

#[test]
fn sphere_aabb_is_center_plus_minus_radius() {
    let s = sphere(10, -20, 3, 5);
    let b = s.aabb();
    assert_eq!(b.min, Point3 { x: 5, y: -25, z: -2 });
    assert_eq!(b.max, Point3 { x: 15, y: -15, z: 8 });
}

#[test]
fn cone_aabb_is_union_of_end_spheres() {
    let mut s = ShapeData::new();
    s.update_rounded_cone(
        Point3 { x: 0, y: 0, z: 0 }, 4, Point3 { x: 10, y: 2, z: -1 }, 2,
        0xFF, 0xFF, 0xFF, 0, 0x80,
    );
    let b = s.aabb();
    assert_eq!(b.min, Point3 { x: -4, y: -4, z: -4 });
    assert_eq!(b.max, Point3 { x: 12, y: 4, z: 4 });
    assert_eq!(s.kind, ShapeKind::RoundedCone);
}

#[test]
fn translate_moves_both_ends() {
    let mut s = sphere(1, 2, 3, 1);
    s.translate(Point3 { x: 10, y: 20, z: 30 });
    assert_eq!(s.a, Point3 { x: 11, y: 22, z: 33 });
}

#[test]
fn traversal_visits_every_shape_once_in_order() {
    let shapes = vec![sphere(0, 0, 0, 5), sphere(20, 0, 0, 5), sphere(40, 0, 0, 5)];
    let nodes = build(&shapes);
    assert_eq!(nodes.len(), 5);
    let visited = traverse_all(&nodes, &shapes);
    assert_eq!(visited, vec![0, 1, 2]);
}

#[test]
fn traversal_of_many_shapes() {
    let mut shapes = Vec::new();
    for i in 0..33i64 {
        shapes.push(sphere(i * 11 - 150, (i % 7) * 9, 0, 3));
    }
    let nodes = build(&shapes);
    assert_eq!(nodes.len(), 2 * 33 - 1);
    let visited = traverse_all(&nodes, &shapes);
    let expected: Vec<usize> = (0..33).collect();
    assert_eq!(visited, expected);
}

#[test]
fn containment_up_the_ancestor_chain() {
    // Every leaf's box is inside the root's box, and every internal box
    // contains its children's boxes along the entry/exit spans.
    let shapes = vec![
        sphere(0, 0, 0, 5),
        sphere(30, 10, 0, 3),
        sphere(-25, -5, 2, 7),
        sphere(60, -40, 0, 1),
    ];
    let nodes = build(&shapes);
    let root: Aabb = nodes[0].aabb;
    for s in shapes.iter() {
        let b = s.aabb();
        assert!(root.min.x <= b.min.x && b.max.x <= root.max.x);
        assert!(root.min.y <= b.min.y && b.max.y <= root.max.y);
        assert!(root.min.z <= b.min.z && b.max.z <= root.max.z);
    }
    for i in 0..nodes.len() {
        let e = nodes[i].exit as usize;
        for j in (i + 1)..e {
            let outer = nodes[i].aabb;
            let inner = nodes[j].aabb;
            assert!(outer.min.x <= inner.min.x && inner.max.x <= outer.max.x);
            assert!(outer.min.y <= inner.min.y && inner.max.y <= outer.max.y);
            assert!(outer.min.z <= inner.min.z && inner.max.z <= outer.max.z);
        }
    }
}

#[test]
fn point_query_finds_the_covering_shape() {
    let shapes = vec![sphere(0, 0, 0, 5), sphere(20, 0, 0, 5), sphere(40, 0, 0, 5)];
    let nodes = build(&shapes);
    let hits = query_xy(&nodes, &shapes, 20, 0);
    assert!(hits.contains(&1));
    assert!(!hits.contains(&0));
    assert!(!hits.contains(&2));
    let empty = query_xy(&nodes, &shapes, 100, 100);
    assert!(empty.is_empty());
}

#[test]
fn shape_cap_is_never_exceeded() {
    // Appending past the fixed maximum leaves the length at the maximum.
    let mut shapes: Vec<ShapeData> = Vec::new();
    for _ in 0..(MAX_SHAPES + 5) {
        push_shape(&mut shapes, ShapeData::new());
    }
    assert_eq!(shapes.len(), MAX_SHAPES);
}

#[test]
fn light_cap_is_never_exceeded() {
    let mut lights: Vec<LightData> = Vec::new();
    for _ in 0..(MAX_LIGHTS + 3) {
        push_light(&mut lights, LightData::default());
    }
    assert_eq!(lights.len(), MAX_LIGHTS);
}

#[test]
fn entity_appends_all_parts_or_none() {
    let mut shapes: Vec<ShapeData> = Vec::new();
    add_entity(&mut shapes, Point3 { x: 0, y: 0, z: -200 });
    assert_eq!(shapes.len(), ENTITY_PARTS);
    // The appended shapes are exactly the translated template parts.
    assert_eq!(shapes[0].kind, ShapeKind::RoundedCone);
    assert_eq!(shapes[0].a, Point3 { x: 0, y: 0, z: -165 });
    assert_eq!(shapes[0].b, Point3 { x: 0, y: 0, z: -140 });
    assert_eq!(shapes[0].ra, 35);
    assert_eq!(shapes[0].rb, 25);
    assert_eq!(shapes[2].kind, ShapeKind::Sphere);
    assert_eq!(shapes[2].a, Point3 { x: 36, y: 0, z: -134 });
    assert_eq!(shapes[2].ra, 3);
    assert_eq!(shapes[10].b, Point3 { x: 20, y: 20, z: -199 });
    // With too little room the list is left untouched.
    let mut nearly_full: Vec<ShapeData> = Vec::new();
    for _ in 0..(MAX_SHAPES - 5) {
        push_shape(&mut nearly_full, ShapeData::new());
    }
    add_entity(&mut nearly_full, Point3 { x: 0, y: 0, z: 0 });
    assert_eq!(nearly_full.len(), MAX_SHAPES - 5);
}

#[test]
fn config_defaults_are_empty() {
    let sc: ShapesConfig = Default::default();
    assert_eq!(sc.num_shapes, 0);
    assert_eq!(sc.num_bvh_nodes, 0);
    let lc: LightsConfig = Default::default();
    assert_eq!(lc.num_lights, 0);
}

#[test]
fn light_new_and_update() {
    let mut l = LightData::new(0x100, 0x200, 0x300, 5, -5, 2, 9);
    assert_eq!(l.range, 9);
    l.update(0x10, 0x20, 0x30, 1, 2, 3, 4);
    assert_eq!(l.red, 0x10);
    assert_eq!(l.x, 1);
    assert_eq!(l.radius, 3);
}
