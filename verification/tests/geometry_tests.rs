use plotview::geometry::{build_line_set, build_point_set, scene_indexable, Vertex};
use plotview::scene::{LineSegment, Point, Scene};

fn point(x: f32, y: f32, z: f32) -> Point {
    Point { x: x.to_bits(), y: y.to_bits(), z: z.to_bits() }
}

fn vertex(x: f32, y: f32, z: f32) -> Vertex {
    Vertex { x: x.to_bits(), y: y.to_bits(), z: z.to_bits() }
}

#[test]
fn vertex_from_point() {
    let p = point(1.0, -2.0, 0.5);
    assert_eq!(Vertex::from(p), vertex(1.0, -2.0, 0.5));
}

#[test]
fn line_set_two_segments() {
    let scene = Scene {
        points: vec![],
        lines: vec![
            LineSegment { p1: point(0.0, 0.0, 0.0), p2: point(1.0, 1.0, 1.0) },
            LineSegment { p1: point(2.0, 2.0, 2.0), p2: point(3.0, 3.0, 3.0) },
        ],
    };
    let set = build_line_set(&scene);
    assert_eq!(set.vertices.len(), 2 * scene.lines.len());
    assert_eq!(set.indices.len(), 2 * scene.lines.len());
    assert_eq!(
        set.vertices,
        vec![
            vertex(0.0, 0.0, 0.0),
            vertex(1.0, 1.0, 1.0),
            vertex(2.0, 2.0, 2.0),
            vertex(3.0, 3.0, 3.0),
        ]
    );
    // segment i contributes indices (2i, 2i + 1)
    assert_eq!(set.indices, vec![0, 1, 2, 3]);
}

#[test]
fn line_set_shared_endpoint_not_deduplicated() {
    // two segments touching at (1,1,1): four vertices all the same anyway
    let shared = point(1.0, 1.0, 1.0);
    let scene = Scene {
        points: vec![],
        lines: vec![
            LineSegment { p1: point(0.0, 0.0, 0.0), p2: shared },
            LineSegment { p1: shared, p2: point(2.0, 0.0, 0.0) },
        ],
    };
    let set = build_line_set(&scene);
    assert_eq!(set.vertices.len(), 4);
    assert_eq!(set.indices, vec![0, 1, 2, 3]);
    assert_eq!(set.vertices[1], vertex(1.0, 1.0, 1.0));
    assert_eq!(set.vertices[2], vertex(1.0, 1.0, 1.0));
}

#[test]
fn point_set_three_points() {
    let scene = Scene {
        points: vec![point(0.0, 0.0, 0.0), point(1.0, 2.0, 3.0), point(-1.0, -2.0, -3.0)],
        lines: vec![],
    };
    let set = build_point_set(&scene);
    assert_eq!(set.vertices.len(), scene.points.len());
    assert_eq!(
        set.vertices,
        vec![vertex(0.0, 0.0, 0.0), vertex(1.0, 2.0, 3.0), vertex(-1.0, -2.0, -3.0)]
    );
    // index i maps to vertex i
    assert_eq!(set.indices, vec![0, 1, 2]);
}

#[test]
fn empty_scene_builds_empty_sets() {
    let scene = Scene { points: vec![], lines: vec![] };
    let lines = build_line_set(&scene);
    let points = build_point_set(&scene);
    assert_eq!(lines.vertices.len(), 0);
    assert_eq!(lines.indices.len(), 0);
    assert_eq!(points.vertices.len(), 0);
    assert_eq!(points.indices.len(), 0);
}

#[test]
fn ordinary_scenes_are_indexable() {
    let empty = Scene { points: vec![], lines: vec![] };
    assert!(scene_indexable(&empty));
    let small = Scene {
        points: vec![point(0.0, 0.0, 0.0)],
        lines: vec![LineSegment { p1: point(0.0, 0.0, 0.0), p2: point(1.0, 1.0, 1.0) }],
    };
    assert!(scene_indexable(&small));
}
