//! The scene data model: points, line segments, and the scene that owns them.

use vstd::prelude::*;

verus! {

/// A point in three dimensions. Each coordinate holds the raw bit pattern of
/// one single-precision float. The viewer never interprets a coordinate
/// numerically: it stores, copies and re-emits the 32 bits unchanged, so the
/// bit pattern is the value, and every 32-bit pattern is a valid coordinate.
#[derive(Copy, Clone, PartialEq, Eq, Structural, Debug)]
pub struct Point {
    pub x: u32,
    pub y: u32,
    pub z: u32,
}

/// An undirected edge between two points. Its endpoints are stored by value;
/// two segments that touch in space share nothing.
#[derive(Copy, Clone, PartialEq, Eq, Structural, Debug)]
pub struct LineSegment {
    pub p1: Point,
    pub p2: Point,
}

/// The decoded contents of the input file: an ordered collection of points
/// and an ordered collection of line segments. A scene is the unit of atomic
/// replacement: the render loop swaps a whole scene in or keeps the old one,
/// never a mixture.
pub struct Scene {
    pub points: Vec<Point>,
    pub lines: Vec<LineSegment>,
}

/// The mathematical model of a [`Scene`]: the same two collections as
/// unbounded sequences.
#[verifier::ext_equal]
pub struct SceneView {
    pub points: Seq<Point>,
    pub lines: Seq<LineSegment>,
}

impl View for Scene {
    type V = SceneView;

    open spec fn view(&self) -> SceneView {
        SceneView { points: self.points@, lines: self.lines@ }
    }
}

} // verus!
