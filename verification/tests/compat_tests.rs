// The wire form must match what the usual serde binary codec produces for
// the same logical scene: a 64-bit little-endian count before each
// collection, and three little-endian single-precision floats per point.
// These tests hold the library's codec against that codec's own output.

use plotview::codec::{decode_scene, encode_scene};
use plotview::scene::{LineSegment, Point, Scene};

type RawPoint = (f32, f32, f32);
type RawLine = (RawPoint, RawPoint);

fn point(p: RawPoint) -> Point {
    Point { x: p.0.to_bits(), y: p.1.to_bits(), z: p.2.to_bits() }
}

#[test]
fn decodes_bincode_output() {
    let raw_points: Vec<RawPoint> = vec![(0.0, 0.0, 0.0), (1.0, 2.5, -3.75)];
    let raw_lines: Vec<RawLine> = vec![((0.0, 0.0, 0.0), (1.0, 2.5, -3.75))];
    let bytes = bincode::serialize(&(raw_points.clone(), raw_lines.clone())).unwrap();

    let scene = decode_scene(&bytes).unwrap();
    assert_eq!(scene.points, vec![point((0.0, 0.0, 0.0)), point((1.0, 2.5, -3.75))]);
    assert_eq!(
        scene.lines,
        vec![LineSegment { p1: point((0.0, 0.0, 0.0)), p2: point((1.0, 2.5, -3.75)) }]
    );
}

#[test]
fn encoding_matches_bincode() {
    let raw_points: Vec<RawPoint> = vec![(4.0, -5.5, 6.25)];
    let raw_lines: Vec<RawLine> = vec![((4.0, -5.5, 6.25), (0.0, 0.0, 0.0))];
    let expected = bincode::serialize(&(raw_points, raw_lines)).unwrap();

    let scene = Scene {
        points: vec![point((4.0, -5.5, 6.25))],
        lines: vec![LineSegment { p1: point((4.0, -5.5, 6.25)), p2: point((0.0, 0.0, 0.0)) }],
    };
    assert_eq!(encode_scene(&scene), expected);
}

#[test]
fn bincode_reads_back_encoding() {
    let scene = Scene {
        points: vec![point((1.0, 2.0, 3.0)), point((7.5, 0.0, -0.5))],
        lines: vec![],
    };
    let bytes = encode_scene(&scene);
    let (raw_points, raw_lines): (Vec<RawPoint>, Vec<RawLine>) =
        bincode::deserialize(&bytes).unwrap();
    assert_eq!(raw_points, vec![(1.0, 2.0, 3.0), (7.5, 0.0, -0.5)]);
    assert_eq!(raw_lines.len(), 0);
}
