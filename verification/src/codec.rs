//! The scene's compact binary wire form, and its decoder and encoder.
//!
//! The layout is the classic length-prefixed one: a 64-bit little-endian
//! count of points, then each point as three little-endian 32-bit
//! coordinates; a 64-bit little-endian count of line segments, then each
//! segment as its two endpoints. Every byte pattern of sufficient length
//! decodes, so the only decode failure is a stream that ends before the
//! structure it announces is complete. Bytes after the announced structure
//! are tolerated and ignored, as a streaming reader would leave them.

use vstd::prelude::*;
use vstd::arithmetic::div_mod::lemma_fundamental_div_mod;
use crate::scene::{LineSegment, Point, Scene, SceneView};

verus! {

/// Why a byte stream failed to decode.
#[derive(Copy, Clone, PartialEq, Eq, Structural, Debug)]
pub enum DecodeError {
    /// The stream ended before the structure it announces was complete.
    Truncated,
}

/// The 32-bit value the four bytes at `pos` spell, least significant first.
pub open spec fn le_bytes_u32(b: Seq<u8>, pos: int) -> u32 {
    (b[pos] + 0x100 * b[pos + 1] + 0x1_0000 * b[pos + 2] + 0x100_0000 * b[pos + 3]) as u32
}

/// The 64-bit value the eight bytes at `pos` spell, least significant first.
pub open spec fn le_bytes_u64(b: Seq<u8>, pos: int) -> u64 {
    (b[pos] + 0x100 * b[pos + 1] + 0x1_0000 * b[pos + 2] + 0x100_0000 * b[pos + 3]
        + 0x1_0000_0000 * b[pos + 4] + 0x100_0000_0000 * b[pos + 5]
        + 0x1_0000_0000_0000 * b[pos + 6] + 0x100_0000_0000_0000 * b[pos + 7]) as u64
}

/// The four little-endian bytes of a 32-bit value.
pub open spec fn u32_le_bytes(x: u32) -> Seq<u8> {
    seq![
        (x % 0x100) as u8,
        ((x / 0x100) % 0x100) as u8,
        ((x / 0x100 / 0x100) % 0x100) as u8,
        ((x / 0x100 / 0x100 / 0x100) % 0x100) as u8,
    ]
}

/// The eight little-endian bytes of a 64-bit value.
pub open spec fn u64_le_bytes(x: u64) -> Seq<u8> {
    seq![
        (x % 0x100) as u8,
        ((x / 0x100) % 0x100) as u8,
        ((x / 0x100 / 0x100) % 0x100) as u8,
        ((x / 0x100 / 0x100 / 0x100) % 0x100) as u8,
        ((x / 0x100 / 0x100 / 0x100 / 0x100) % 0x100) as u8,
        ((x / 0x100 / 0x100 / 0x100 / 0x100 / 0x100) % 0x100) as u8,
        ((x / 0x100 / 0x100 / 0x100 / 0x100 / 0x100 / 0x100) % 0x100) as u8,
        ((x / 0x100 / 0x100 / 0x100 / 0x100 / 0x100 / 0x100 / 0x100) % 0x100) as u8,
    ]
}

/// The twelve bytes of one point on the wire.
pub open spec fn point_bytes(p: Point) -> Seq<u8> {
    u32_le_bytes(p.x) + u32_le_bytes(p.y) + u32_le_bytes(p.z)
}

/// The twenty-four bytes of one line segment on the wire.
pub open spec fn line_bytes(l: LineSegment) -> Seq<u8> {
    point_bytes(l.p1) + point_bytes(l.p2)
}

/// The wire form of a point collection: each point's bytes in order.
pub open spec fn points_bytes(ps: Seq<Point>) -> Seq<u8>
    decreases ps.len(),
{
    if ps.len() == 0 {
        Seq::<u8>::empty()
    } else {
        points_bytes(ps.drop_last()) + point_bytes(ps.last())
    }
}

/// The wire form of a line collection: each segment's bytes in order.
pub open spec fn lines_bytes(ls: Seq<LineSegment>) -> Seq<u8>
    decreases ls.len(),
{
    if ls.len() == 0 {
        Seq::<u8>::empty()
    } else {
        lines_bytes(ls.drop_last()) + line_bytes(ls.last())
    }
}

/// The whole wire form of a scene.
pub open spec fn spec_encode(s: SceneView) -> Seq<u8> {
    u64_le_bytes(s.points.len() as u64) + points_bytes(s.points)
        + u64_le_bytes(s.lines.len() as u64) + lines_bytes(s.lines)
}

/// The point the twelve bytes at `pos` spell.
pub open spec fn point_at(b: Seq<u8>, pos: int) -> Point {
    Point { x: le_bytes_u32(b, pos), y: le_bytes_u32(b, pos + 4), z: le_bytes_u32(b, pos + 8) }
}

/// The line segment the twenty-four bytes at `pos` spell.
pub open spec fn line_at(b: Seq<u8>, pos: int) -> LineSegment {
    LineSegment { p1: point_at(b, pos), p2: point_at(b, pos + 12) }
}

/// What a byte stream decodes to: the scene it spells, or nothing where the
/// stream is shorter than the structure its counts announce.
pub open spec fn spec_decode(b: Seq<u8>) -> Option<SceneView> {
    if b.len() < 8 {
        None
    } else {
        let np = le_bytes_u64(b, 0) as int;
        if b.len() < 8 + 12 * np {
            None
        } else {
            let loff = 8 + 12 * np;
            if b.len() < loff + 8 {
                None
            } else {
                let nl = le_bytes_u64(b, loff) as int;
                if b.len() < loff + 8 + 24 * nl {
                    None
                } else {
                    Some(
                        SceneView {
                            points: Seq::new(np as nat, |i: int| point_at(b, 8 + 12 * i)),
                            lines: Seq::new(nl as nat, |i: int| line_at(b, loff + 8 + 24 * i)),
                        },
                    )
                }
            }
        }
    }
}

/// Reading back the four little-endian bytes of a value yields the value.
pub proof fn lemma_u32_le_roundtrip(x: u32)
    ensures
        u32_le_bytes(x).len() == 4,
        le_bytes_u32(u32_le_bytes(x), 0) == x,
{
    let q1: int = x as int / 0x100;
    let q2: int = q1 / 0x100;
    let q3: int = q2 / 0x100;
    lemma_fundamental_div_mod(x as int, 0x100);
    lemma_fundamental_div_mod(q1, 0x100);
    lemma_fundamental_div_mod(q2, 0x100);
    assert(q3 < 0x100);
    assert(q3 % 0x100 == q3);
}

/// Reading back the eight little-endian bytes of a value yields the value.
pub proof fn lemma_u64_le_roundtrip(x: u64)
    ensures
        u64_le_bytes(x).len() == 8,
        le_bytes_u64(u64_le_bytes(x), 0) == x,
{
    let q1: int = x as int / 0x100;
    let q2: int = q1 / 0x100;
    let q3: int = q2 / 0x100;
    let q4: int = q3 / 0x100;
    let q5: int = q4 / 0x100;
    let q6: int = q5 / 0x100;
    let q7: int = q6 / 0x100;
    lemma_fundamental_div_mod(x as int, 0x100);
    lemma_fundamental_div_mod(q1, 0x100);
    lemma_fundamental_div_mod(q2, 0x100);
    lemma_fundamental_div_mod(q3, 0x100);
    lemma_fundamental_div_mod(q4, 0x100);
    lemma_fundamental_div_mod(q5, 0x100);
    lemma_fundamental_div_mod(q6, 0x100);
    assert(q7 < 0x100);
    assert(q7 % 0x100 == q7);
}

/// A point collection's wire form is twelve bytes per point.
pub proof fn lemma_points_bytes_len(ps: Seq<Point>)
    ensures
        points_bytes(ps).len() == 12 * ps.len(),
    decreases ps.len(),
{
    if ps.len() > 0 {
        lemma_points_bytes_len(ps.drop_last());
    }
}

/// A line collection's wire form is twenty-four bytes per segment.
pub proof fn lemma_lines_bytes_len(ls: Seq<LineSegment>)
    ensures
        lines_bytes(ls).len() == 24 * ls.len(),
    decreases ls.len(),
{
    if ls.len() > 0 {
        lemma_lines_bytes_len(ls.drop_last());
    }
}

/// Point `i`'s bytes stand at offset `12 i` of the collection's wire form.
pub proof fn lemma_points_bytes_at(ps: Seq<Point>, i: int)
    requires
        0 <= i < ps.len(),
    ensures
        points_bytes(ps).subrange(12 * i, 12 * i + 12) == point_bytes(ps[i]),
    decreases ps.len(),
{
    lemma_points_bytes_len(ps);
    lemma_points_bytes_len(ps.drop_last());
    if i == ps.len() - 1 {
        assert(points_bytes(ps).subrange(12 * i, 12 * i + 12) =~= point_bytes(ps.last()));
    } else {
        lemma_points_bytes_at(ps.drop_last(), i);
        assert(points_bytes(ps).subrange(12 * i, 12 * i + 12) =~= points_bytes(
            ps.drop_last(),
        ).subrange(12 * i, 12 * i + 12));
    }
}

/// Segment `i`'s bytes stand at offset `24 i` of the collection's wire form.
pub proof fn lemma_lines_bytes_at(ls: Seq<LineSegment>, i: int)
    requires
        0 <= i < ls.len(),
    ensures
        lines_bytes(ls).subrange(24 * i, 24 * i + 24) == line_bytes(ls[i]),
    decreases ls.len(),
{
    lemma_lines_bytes_len(ls);
    lemma_lines_bytes_len(ls.drop_last());
    if i == ls.len() - 1 {
        assert(lines_bytes(ls).subrange(24 * i, 24 * i + 24) =~= line_bytes(ls.last()));
    } else {
        lemma_lines_bytes_at(ls.drop_last(), i);
        assert(lines_bytes(ls).subrange(24 * i, 24 * i + 24) =~= lines_bytes(
            ls.drop_last(),
        ).subrange(24 * i, 24 * i + 24));
    }
}

/// Four bytes read the same wherever they stand: the value at `pos` is the
/// value of the four-byte subrange.
proof fn lemma_le_bytes_u32_subrange(b: Seq<u8>, pos: int)
    requires
        0 <= pos,
        pos + 4 <= b.len(),
    ensures
        le_bytes_u32(b, pos) == le_bytes_u32(b.subrange(pos, pos + 4), 0),
{
    let s = b.subrange(pos, pos + 4);
    assert(s[0] == b[pos]);
    assert(s[1] == b[pos + 1]);
    assert(s[2] == b[pos + 2]);
    assert(s[3] == b[pos + 3]);
}

/// Eight bytes read the same wherever they stand: the value at `pos` is the
/// value of the eight-byte subrange.
proof fn lemma_le_bytes_u64_subrange(b: Seq<u8>, pos: int)
    requires
        0 <= pos,
        pos + 8 <= b.len(),
    ensures
        le_bytes_u64(b, pos) == le_bytes_u64(b.subrange(pos, pos + 8), 0),
{
    let s = b.subrange(pos, pos + 8);
    assert(s[0] == b[pos]);
    assert(s[1] == b[pos + 1]);
    assert(s[2] == b[pos + 2]);
    assert(s[3] == b[pos + 3]);
    assert(s[4] == b[pos + 4]);
    assert(s[5] == b[pos + 5]);
    assert(s[6] == b[pos + 6]);
    assert(s[7] == b[pos + 7]);
}

/// Twelve bytes that spell a point's wire form read back as that point.
pub proof fn lemma_point_at_of_bytes(b: Seq<u8>, pos: int, p: Point)
    requires
        0 <= pos,
        pos + 12 <= b.len(),
        b.subrange(pos, pos + 12) == point_bytes(p),
    ensures
        point_at(b, pos) == p,
{
    lemma_u32_le_roundtrip(p.x);
    lemma_u32_le_roundtrip(p.y);
    lemma_u32_le_roundtrip(p.z);
    assert(b.subrange(pos, pos + 4) =~= point_bytes(p).subrange(0, 4));
    assert(b.subrange(pos + 4, pos + 8) =~= point_bytes(p).subrange(4, 8));
    assert(b.subrange(pos + 8, pos + 12) =~= point_bytes(p).subrange(8, 12));
    assert(point_bytes(p).subrange(0, 4) =~= u32_le_bytes(p.x));
    assert(point_bytes(p).subrange(4, 8) =~= u32_le_bytes(p.y));
    assert(point_bytes(p).subrange(8, 12) =~= u32_le_bytes(p.z));
    lemma_le_bytes_u32_subrange(b, pos);
    lemma_le_bytes_u32_subrange(b, pos + 4);
    lemma_le_bytes_u32_subrange(b, pos + 8);
}

/// Twenty-four bytes that spell a segment's wire form read back as that
/// segment.
pub proof fn lemma_line_at_of_bytes(b: Seq<u8>, pos: int, l: LineSegment)
    requires
        0 <= pos,
        pos + 24 <= b.len(),
        b.subrange(pos, pos + 24) == line_bytes(l),
    ensures
        line_at(b, pos) == l,
{
    assert(b.subrange(pos, pos + 12) =~= line_bytes(l).subrange(0, 12));
    assert(b.subrange(pos + 12, pos + 24) =~= line_bytes(l).subrange(12, 24));
    assert(line_bytes(l).subrange(0, 12) =~= point_bytes(l.p1));
    assert(line_bytes(l).subrange(12, 24) =~= point_bytes(l.p2));
    lemma_point_at_of_bytes(b, pos, l.p1);
    lemma_point_at_of_bytes(b, pos + 12, l.p2);
}

/// Encoding a scene and decoding the result yields the scene again, points
/// and lines in their original order. Decoding is a left inverse of
/// encoding.
pub proof fn lemma_round_trip(s: SceneView)
    requires
        s.points.len() <= u64::MAX,
        s.lines.len() <= u64::MAX,
    ensures
        spec_decode(spec_encode(s)) == Some(s),
{
    let np: int = s.points.len() as int;
    let nl: int = s.lines.len() as int;
    let e = spec_encode(s);
    let hp = u64_le_bytes(s.points.len() as u64);
    let hl = u64_le_bytes(s.lines.len() as u64);
    let pb = points_bytes(s.points);
    let lb = lines_bytes(s.lines);
    lemma_points_bytes_len(s.points);
    lemma_lines_bytes_len(s.lines);
    lemma_u64_le_roundtrip(s.points.len() as u64);
    lemma_u64_le_roundtrip(s.lines.len() as u64);
    assert(e.len() == 16 + 12 * np + 24 * nl);
    let loff = 8 + 12 * np;

    assert(e.subrange(0, 8) =~= hp);
    lemma_le_bytes_u64_subrange(e, 0);
    assert(le_bytes_u64(e, 0) as int == np);

    assert(e.subrange(loff, loff + 8) =~= hl);
    lemma_le_bytes_u64_subrange(e, loff);
    assert(le_bytes_u64(e, loff) as int == nl);

    assert forall|i: int| 0 <= i < np implies point_at(e, 8 + 12 * i) == s.points[i] by {
        lemma_points_bytes_at(s.points, i);
        assert(e.subrange(8 + 12 * i, 8 + 12 * i + 12) =~= pb.subrange(12 * i, 12 * i + 12));
        lemma_point_at_of_bytes(e, 8 + 12 * i, s.points[i]);
    }

    assert forall|i: int| 0 <= i < nl implies line_at(e, loff + 8 + 24 * i) == s.lines[i] by {
        lemma_lines_bytes_at(s.lines, i);
        assert(e.subrange(loff + 8 + 24 * i, loff + 8 + 24 * i + 24) =~= lb.subrange(
            24 * i,
            24 * i + 24,
        ));
        lemma_line_at_of_bytes(e, loff + 8 + 24 * i, s.lines[i]);
    }

    assert(Seq::new(np as nat, |i: int| point_at(e, 8 + 12 * i)) =~= s.points);
    assert(Seq::new(nl as nat, |i: int| line_at(e, loff + 8 + 24 * i)) =~= s.lines);
    assert(spec_decode(e) matches Some(d) && d =~= s);
}

/// Decoding a stream and re-encoding the scene it yields gives a stream
/// that decodes to the same scene again: nothing is lost or reordered on
/// the way through.
pub proof fn lemma_decode_reencode(b: Seq<u8>, s: SceneView)
    requires
        spec_decode(b) == Some(s),
    ensures
        spec_decode(spec_encode(s)) == Some(s),
{
    lemma_round_trip(s);
}

/// Reads the little-endian 32-bit value at `pos`.
fn read_u32_le(b: &Vec<u8>, pos: usize) -> (r: u32)
    requires
        pos + 4 <= b@.len(),
    ensures
        r == le_bytes_u32(b@, pos as int),
{
    let n = b.len();
    let b0 = b[pos] as u32;
    let b1 = b[pos + 1] as u32;
    let b2 = b[pos + 2] as u32;
    let b3 = b[pos + 3] as u32;
    b0 + 0x100 * b1 + 0x1_0000 * b2 + 0x100_0000 * b3
}

/// Reads the little-endian 64-bit value at `pos`.
fn read_u64_le(b: &Vec<u8>, pos: usize) -> (r: u64)
    requires
        pos + 8 <= b@.len(),
    ensures
        r == le_bytes_u64(b@, pos as int),
{
    let n = b.len();
    let b0 = b[pos] as u64;
    let b1 = b[pos + 1] as u64;
    let b2 = b[pos + 2] as u64;
    let b3 = b[pos + 3] as u64;
    let b4 = b[pos + 4] as u64;
    let b5 = b[pos + 5] as u64;
    let b6 = b[pos + 6] as u64;
    let b7 = b[pos + 7] as u64;
    b0 + 0x100 * b1 + 0x1_0000 * b2 + 0x100_0000 * b3 + 0x1_0000_0000 * b4 + 0x100_0000_0000 * b5
        + 0x1_0000_0000_0000 * b6 + 0x100_0000_0000_0000 * b7
}

/// Appends the four little-endian bytes of a 32-bit value.
fn push_u32_le(out: &mut Vec<u8>, x: u32)
    ensures
        final(out)@ == old(out)@ + u32_le_bytes(x),
{
    out.push((x % 0x100) as u8);
    out.push((x / 0x100 % 0x100) as u8);
    out.push((x / 0x100 / 0x100 % 0x100) as u8);
    out.push((x / 0x100 / 0x100 / 0x100 % 0x100) as u8);
    assert(out@ =~= old(out)@ + u32_le_bytes(x));
}

/// Appends the eight little-endian bytes of a 64-bit value.
fn push_u64_le(out: &mut Vec<u8>, x: u64)
    ensures
        final(out)@ == old(out)@ + u64_le_bytes(x),
{
    out.push((x % 0x100) as u8);
    out.push((x / 0x100 % 0x100) as u8);
    out.push((x / 0x100 / 0x100 % 0x100) as u8);
    out.push((x / 0x100 / 0x100 / 0x100 % 0x100) as u8);
    out.push((x / 0x100 / 0x100 / 0x100 / 0x100 % 0x100) as u8);
    out.push((x / 0x100 / 0x100 / 0x100 / 0x100 / 0x100 % 0x100) as u8);
    out.push((x / 0x100 / 0x100 / 0x100 / 0x100 / 0x100 / 0x100 % 0x100) as u8);
    out.push((x / 0x100 / 0x100 / 0x100 / 0x100 / 0x100 / 0x100 / 0x100 % 0x100) as u8);
    assert(out@ =~= old(out)@ + u64_le_bytes(x));
}

/// Decodes a byte stream into a scene. Succeeds on exactly the streams long
/// enough for the structure their counts announce; a shorter stream is
/// reported truncated, and no partial scene is ever returned.
pub fn decode_scene(bytes: &Vec<u8>) -> (r: Result<Scene, DecodeError>)
    ensures
        match r {
            Ok(scene) => spec_decode(bytes@) == Some(scene@),
            Err(e) => spec_decode(bytes@) is None && e == DecodeError::Truncated,
        },
{
    let n = bytes.len();
    if n < 8 {
        return Err(DecodeError::Truncated);
    }
    let np64 = read_u64_le(bytes, 0);
    proof {
        lemma_fundamental_div_mod((n - 8) as int, 12);
    }
    if np64 > ((n - 8) / 12) as u64 {
        return Err(DecodeError::Truncated);
    }
    let np = np64 as usize;
    let loff = 8 + 12 * np;
    if n - loff < 8 {
        return Err(DecodeError::Truncated);
    }
    let nl64 = read_u64_le(bytes, loff);
    proof {
        lemma_fundamental_div_mod((n - loff - 8) as int, 24);
    }
    if nl64 > ((n - loff - 8) / 24) as u64 {
        return Err(DecodeError::Truncated);
    }
    let nl = nl64 as usize;
    let doff = loff + 8;

    let mut points: Vec<Point> = Vec::new();
    let mut i: usize = 0;
    while i < np
        invariant
            n == bytes@.len(),
            8 + 12 * np <= n,
            i <= np,
            points@.len() == i,
            forall|k: int| 0 <= k < i ==> points@[k] == point_at(bytes@, 8 + 12 * k),
        decreases np - i,
    {
        let base = 8 + 12 * i;
        let x = read_u32_le(bytes, base);
        let y = read_u32_le(bytes, base + 4);
        let z = read_u32_le(bytes, base + 8);
        points.push(Point { x, y, z });
        i = i + 1;
    }

    let mut lines: Vec<LineSegment> = Vec::new();
    let mut j: usize = 0;
    while j < nl
        invariant
            n == bytes@.len(),
            doff == 8 + 12 * np + 8,
            doff + 24 * nl <= n,
            j <= nl,
            lines@.len() == j,
            forall|k: int| 0 <= k < j ==> lines@[k] == line_at(bytes@, doff + 24 * k),
        decreases nl - j,
    {
        let base = doff + 24 * j;
        let x1 = read_u32_le(bytes, base);
        let y1 = read_u32_le(bytes, base + 4);
        let z1 = read_u32_le(bytes, base + 8);
        let x2 = read_u32_le(bytes, base + 12);
        let y2 = read_u32_le(bytes, base + 16);
        let z2 = read_u32_le(bytes, base + 20);
        lines.push(
            LineSegment {
                p1: Point { x: x1, y: y1, z: z1 },
                p2: Point { x: x2, y: y2, z: z2 },
            },
        );
        j = j + 1;
    }

    let scene = Scene { points, lines };
    proof {
        let b = bytes@;
        assert(scene@.points =~= Seq::new(np as nat, |i: int| point_at(b, 8 + 12 * i)));
        assert(scene@.lines =~= Seq::new(
            nl as nat,
            |i: int| line_at(b, 8 + 12 * np + 8 + 24 * i),
        ));
        assert(spec_decode(b) matches Some(d) && d =~= scene@);
    }
    Ok(scene)
}

/// Appends the twelve bytes of one point.
fn push_point(out: &mut Vec<u8>, p: Point)
    ensures
        final(out)@ == old(out)@ + point_bytes(p),
{
    push_u32_le(out, p.x);
    push_u32_le(out, p.y);
    push_u32_le(out, p.z);
    assert(out@ =~= old(out)@ + point_bytes(p));
}

/// Appends the twenty-four bytes of one line segment.
fn push_line(out: &mut Vec<u8>, l: LineSegment)
    ensures
        final(out)@ == old(out)@ + line_bytes(l),
{
    push_point(out, l.p1);
    push_point(out, l.p2);
    assert(out@ =~= old(out)@ + line_bytes(l));
}

/// Encodes a scene into its wire form.
pub fn encode_scene(scene: &Scene) -> (r: Vec<u8>)
    ensures
        r@ == spec_encode(scene@),
{
    let mut out: Vec<u8> = Vec::new();
    let np = scene.points.len();
    let nl = scene.lines.len();
    push_u64_le(&mut out, np as u64);

    let mut i: usize = 0;
    while i < np
        invariant
            np == scene.points@.len(),
            i <= np,
            out@ == u64_le_bytes(np as u64) + points_bytes(scene.points@.take(i as int)),
        decreases np - i,
    {
        let p = scene.points[i];
        push_point(&mut out, p);
        proof {
            let taken = scene.points@.take(i + 1);
            assert(taken.drop_last() =~= scene.points@.take(i as int));
            assert(taken.last() == scene.points@[i as int]);
            assert(out@ =~= u64_le_bytes(np as u64) + points_bytes(taken));
        }
        i = i + 1;
    }
    proof {
        assert(scene.points@.take(np as int) =~= scene.points@);
    }

    push_u64_le(&mut out, nl as u64);
    let head: Ghost<Seq<u8>> = Ghost(
        u64_le_bytes(np as u64) + points_bytes(scene.points@) + u64_le_bytes(nl as u64),
    );
    let mut j: usize = 0;
    while j < nl
        invariant
            nl == scene.lines@.len(),
            j <= nl,
            head@ == u64_le_bytes(np as u64) + points_bytes(scene.points@) + u64_le_bytes(
                nl as u64,
            ),
            out@ == head@ + lines_bytes(scene.lines@.take(j as int)),
        decreases nl - j,
    {
        let l = scene.lines[j];
        push_line(&mut out, l);
        proof {
            let taken = scene.lines@.take(j + 1);
            assert(taken.drop_last() =~= scene.lines@.take(j as int));
            assert(taken.last() == scene.lines@[j as int]);
            assert(out@ =~= head@ + lines_bytes(taken));
        }
        j = j + 1;
    }
    proof {
        assert(scene.lines@.take(nl as int) =~= scene.lines@);
        assert(out@ =~= spec_encode(scene@));
    }
    out
}

} // verus!
