use plotview::codec::{decode_scene, encode_scene, DecodeError};
use plotview::scene::{LineSegment, Point, Scene};

fn le64(n: u64) -> Vec<u8> {
    n.to_le_bytes().to_vec()
}

fn le32(n: u32) -> Vec<u8> {
    n.to_le_bytes().to_vec()
}

fn point(x: f32, y: f32, z: f32) -> Point {
    Point { x: x.to_bits(), y: y.to_bits(), z: z.to_bits() }
}

#[test]
fn decode_empty_scene() {
    let mut bytes = Vec::new();
    bytes.extend(le64(0));
    bytes.extend(le64(0));
    let scene = decode_scene(&bytes).unwrap();
    assert_eq!(scene.points.len(), 0);
    assert_eq!(scene.lines.len(), 0);
}

#[test]
fn decode_exact_bytes() {
    // one point (1.0, 2.0, -3.5), one line from (0,0,0) to (1.0, 2.0, -3.5)
    let mut bytes = Vec::new();
    bytes.extend(le64(1));
    bytes.extend(le32(1.0f32.to_bits()));
    bytes.extend(le32(2.0f32.to_bits()));
    bytes.extend(le32((-3.5f32).to_bits()));
    bytes.extend(le64(1));
    bytes.extend(le32(0.0f32.to_bits()));
    bytes.extend(le32(0.0f32.to_bits()));
    bytes.extend(le32(0.0f32.to_bits()));
    bytes.extend(le32(1.0f32.to_bits()));
    bytes.extend(le32(2.0f32.to_bits()));
    bytes.extend(le32((-3.5f32).to_bits()));
    let scene = decode_scene(&bytes).unwrap();
    assert_eq!(scene.points, vec![point(1.0, 2.0, -3.5)]);
    assert_eq!(
        scene.lines,
        vec![LineSegment { p1: point(0.0, 0.0, 0.0), p2: point(1.0, 2.0, -3.5) }]
    );
}

#[test]
fn encode_exact_bytes() {
    let scene = Scene { points: vec![point(1.0, 2.0, 3.0)], lines: vec![] };
    let mut expected = Vec::new();
    expected.extend(le64(1));
    expected.extend(le32(1.0f32.to_bits()));
    expected.extend(le32(2.0f32.to_bits()));
    expected.extend(le32(3.0f32.to_bits()));
    expected.extend(le64(0));
    assert_eq!(encode_scene(&scene), expected);
}

#[test]
fn round_trip_scene() {
    let scene = Scene {
        points: vec![point(0.0, 0.0, 0.0), point(1.5, -2.25, 8.0), point(0.1, 0.2, 0.3)],
        lines: vec![
            LineSegment { p1: point(1.5, -2.25, 8.0), p2: point(0.0, 0.0, 0.0) },
            LineSegment { p1: point(0.1, 0.2, 0.3), p2: point(0.1, 0.2, 0.3) },
        ],
    };
    let bytes = encode_scene(&scene);
    let back = decode_scene(&bytes).unwrap();
    assert_eq!(back.points, scene.points);
    assert_eq!(back.lines, scene.lines);
}

#[test]
fn round_trip_empty_scene() {
    let scene = Scene { points: vec![], lines: vec![] };
    let bytes = encode_scene(&scene);
    assert_eq!(bytes.len(), 16);
    let back = decode_scene(&bytes).unwrap();
    assert_eq!(back.points, scene.points);
    assert_eq!(back.lines, scene.lines);
}

#[test]
fn truncated_empty_stream() {
    let bytes = Vec::new();
    assert!(matches!(decode_scene(&bytes), Err(DecodeError::Truncated)));
}

#[test]
fn truncated_header() {
    let bytes = vec![0u8; 7];
    assert!(matches!(decode_scene(&bytes), Err(DecodeError::Truncated)));
}

#[test]
fn truncated_point_body() {
    // announces two points but carries bytes for only one
    let mut bytes = Vec::new();
    bytes.extend(le64(2));
    bytes.extend(vec![0u8; 12]);
    assert!(matches!(decode_scene(&bytes), Err(DecodeError::Truncated)));
}

#[test]
fn truncated_missing_line_count() {
    let mut bytes = Vec::new();
    bytes.extend(le64(1));
    bytes.extend(vec![0u8; 12]);
    assert!(matches!(decode_scene(&bytes), Err(DecodeError::Truncated)));
}

#[test]
fn truncated_line_body() {
    let mut bytes = Vec::new();
    bytes.extend(le64(0));
    bytes.extend(le64(1));
    bytes.extend(vec![0u8; 23]);
    assert!(matches!(decode_scene(&bytes), Err(DecodeError::Truncated)));
}

#[test]
fn trailing_bytes_tolerated() {
    let scene = Scene { points: vec![point(4.0, 5.0, 6.0)], lines: vec![] };
    let mut bytes = encode_scene(&scene);
    bytes.extend(vec![0xAAu8; 5]);
    let back = decode_scene(&bytes).unwrap();
    assert_eq!(back.points, scene.points);
    assert_eq!(back.lines, scene.lines);
}

#[test]
fn huge_count_rejected() {
    let mut bytes = Vec::new();
    bytes.extend(le64(u64::MAX));
    bytes.extend(vec![0u8; 100]);
    assert!(matches!(decode_scene(&bytes), Err(DecodeError::Truncated)));
}
