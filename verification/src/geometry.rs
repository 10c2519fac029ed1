//! The geometry builder: a scene becomes two drawable primitive sets, a line
//! list and a point cloud, each a flat vertex array plus an index array.

use vstd::prelude::*;
use crate::scene::{Point, Scene, SceneView};

verus! {

/// One vertex of a drawable primitive: a position, stored as the same
/// coordinate bit patterns a [`Point`] holds.
#[derive(Copy, Clone, PartialEq, Eq, Structural, Debug)]
pub struct Vertex {
    pub x: u32,
    pub y: u32,
    pub z: u32,
}

/// The vertex a point contributes to a drawable set.
pub open spec fn vertex_of(p: Point) -> Vertex {
    Vertex { x: p.x, y: p.y, z: p.z }
}

impl Vertex {
    /// The vertex with a point's position.
    pub fn from(p: Point) -> (v: Vertex)
        ensures
            v == vertex_of(p),
    {
        Vertex { x: p.x, y: p.y, z: p.z }
    }
}

/// A drawable primitive set: positions plus the indices that assemble them
/// into primitives. Indices are 32 bits wide, the width the index buffer on
/// the graphics side uses.
pub struct DrawableSet {
    pub vertices: Vec<Vertex>,
    pub indices: Vec<u32>,
}

/// The mathematical model of a [`DrawableSet`].
#[verifier::ext_equal]
pub struct DrawableSetView {
    pub vertices: Seq<Vertex>,
    pub indices: Seq<u32>,
}

impl View for DrawableSet {
    type V = DrawableSetView;

    open spec fn view(&self) -> DrawableSetView {
        DrawableSetView { vertices: self.vertices@, indices: self.indices@ }
    }
}

/// The line list a scene yields: segment `i` contributes its two endpoints as
/// vertices `2i` and `2i + 1`, and every index points at the vertex of its own
/// position, so lines never share vertices.
pub open spec fn line_set_of(s: SceneView) -> DrawableSetView {
    DrawableSetView {
        vertices: Seq::new(
            (2 * s.lines.len()) as nat,
            |j: int| if j % 2 == 0 { vertex_of(s.lines[j / 2].p1) } else { vertex_of(s.lines[j / 2].p2) },
        ),
        indices: Seq::new((2 * s.lines.len()) as nat, |j: int| j as u32),
    }
}

/// The point cloud a scene yields: point `i` is vertex `i`, and index `i`
/// points at vertex `i`.
pub open spec fn point_set_of(s: SceneView) -> DrawableSetView {
    DrawableSetView {
        vertices: Seq::new(s.points.len(), |i: int| vertex_of(s.points[i])),
        indices: Seq::new(s.points.len(), |i: int| i as u32),
    }
}

/// Every index of the scene's line list fits in 32 bits.
pub open spec fn line_indexable(s: SceneView) -> bool {
    2 * s.lines.len() <= u32::MAX + 1
}

/// Every index of the scene's point cloud fits in 32 bits.
pub open spec fn point_indexable(s: SceneView) -> bool {
    s.points.len() <= u32::MAX + 1
}

/// Both drawable sets of the scene can be indexed with 32-bit indices.
pub open spec fn indexable(s: SceneView) -> bool {
    line_indexable(s) && point_indexable(s)
}

/// Whether a scene's drawable sets can be indexed with 32-bit indices. True
/// of every scene whose encoded form is smaller than 4 GiB.
pub fn scene_indexable(scene: &Scene) -> (r: bool)
    ensures
        r == indexable(scene@),
{
    scene.lines.len() as u64 <= 0x8000_0000u64 && scene.points.len() as u64 <= 0x1_0000_0000u64
}

/// Builds the line list of a scene.
pub fn build_line_set(scene: &Scene) -> (r: DrawableSet)
    requires
        line_indexable(scene@),
    ensures
        r@ == line_set_of(scene@),
{
    let n = scene.lines.len();
    let mut vertices: Vec<Vertex> = Vec::new();
    let mut indices: Vec<u32> = Vec::new();
    let mut i: usize = 0;
    while i < n
        invariant
            n == scene.lines@.len(),
            2 * n <= u32::MAX + 1,
            i <= n,
            vertices@.len() == 2 * i,
            indices@.len() == 2 * i,
            forall|k: int|
                0 <= k < i ==> vertices@[2 * k] == vertex_of(scene.lines@[k].p1)
                    && vertices@[2 * k + 1] == vertex_of(scene.lines@[k].p2),
            forall|j: int| 0 <= j < 2 * i ==> indices@[j] == j as u32,
        decreases n - i,
    {
        let line = scene.lines[i];
        vertices.push(Vertex::from(line.p1));
        vertices.push(Vertex::from(line.p2));
        indices.push((2 * i) as u32);
        indices.push((2 * i + 1) as u32);
        i = i + 1;
    }
    let r = DrawableSet { vertices, indices };
    proof {
        assert forall|j: int| 0 <= j < 2 * n implies r@.vertices[j] == line_set_of(scene@).vertices[j] by {
            let k = j / 2;
            assert(j == 2 * k + j % 2);
        }
        assert(r@.vertices =~= line_set_of(scene@).vertices);
        assert(r@.indices =~= line_set_of(scene@).indices);
    }
    r
}

/// Builds the point cloud of a scene.
pub fn build_point_set(scene: &Scene) -> (r: DrawableSet)
    requires
        point_indexable(scene@),
    ensures
        r@ == point_set_of(scene@),
{
    let n = scene.points.len();
    let mut vertices: Vec<Vertex> = Vec::new();
    let mut indices: Vec<u32> = Vec::new();
    let mut i: usize = 0;
    while i < n
        invariant
            n == scene.points@.len(),
            n <= u32::MAX + 1,
            i <= n,
            vertices@.len() == i,
            indices@.len() == i,
            forall|k: int| 0 <= k < i ==> vertices@[k] == vertex_of(scene.points@[k]),
            forall|k: int| 0 <= k < i ==> indices@[k] == k as u32,
        decreases n - i,
    {
        let p = scene.points[i];
        vertices.push(Vertex::from(p));
        indices.push(i as u32);
        i = i + 1;
    }
    let r = DrawableSet { vertices, indices };
    proof {
        assert(r@.vertices =~= point_set_of(scene@).vertices);
        assert(r@.indices =~= point_set_of(scene@).indices);
    }
    r
}

/// The shape of every line list: a scene with `n` segments yields `2n`
/// vertices and `2n` indices; segment `i`'s endpoints stand at vertices `2i`
/// and `2i + 1`, and index `j` names vertex `j`, so segments share no
/// vertices.
pub proof fn lemma_line_set_shape(s: SceneView)
    ensures
        line_set_of(s).vertices.len() == 2 * s.lines.len(),
        line_set_of(s).indices.len() == 2 * s.lines.len(),
        forall|i: int|
            0 <= i < s.lines.len() ==> #[trigger] line_set_of(s).vertices[2 * i] == vertex_of(
                s.lines[i].p1,
            ) && line_set_of(s).vertices[2 * i + 1] == vertex_of(s.lines[i].p2),
        forall|j: int|
            0 <= j < 2 * s.lines.len() ==> #[trigger] line_set_of(s).indices[j] == j as u32,
        line_indexable(s) ==> forall|j: int|
            0 <= j < 2 * s.lines.len() ==> #[trigger] line_set_of(s).indices[j] as int == j,
{
    assert forall|i: int|
        0 <= i < s.lines.len() implies #[trigger] line_set_of(s).vertices[2 * i] == vertex_of(
        s.lines[i].p1,
    ) && line_set_of(s).vertices[2 * i + 1] == vertex_of(s.lines[i].p2) by {
        assert((2 * i) % 2 == 0);
        assert((2 * i + 1) % 2 == 1);
        assert((2 * i) / 2 == i);
        assert((2 * i + 1) / 2 == i);
    }
}

/// The shape of every point cloud: a scene with `n` points yields `n`
/// vertices and `n` indices, vertex `i` is point `i`'s position, and index
/// `i` names vertex `i`.
pub proof fn lemma_point_set_shape(s: SceneView)
    ensures
        point_set_of(s).vertices.len() == s.points.len(),
        point_set_of(s).indices.len() == s.points.len(),
        forall|i: int|
            0 <= i < s.points.len() ==> #[trigger] point_set_of(s).vertices[i] == vertex_of(
                s.points[i],
            ),
        forall|i: int| 0 <= i < s.points.len() ==> #[trigger] point_set_of(s).indices[i] == i as u32,
        point_indexable(s) ==> forall|i: int|
            0 <= i < s.points.len() ==> #[trigger] point_set_of(s).indices[i] as int == i,
{
}

/// An empty scene yields drawable sets with no vertices and no indices, for
/// both primitive kinds.
pub proof fn lemma_empty_scene_sets(s: SceneView)
    requires
        s.points.len() == 0,
        s.lines.len() == 0,
    ensures
        line_set_of(s).vertices.len() == 0,
        line_set_of(s).indices.len() == 0,
        point_set_of(s).vertices.len() == 0,
        point_set_of(s).indices.len() == 0,
{
}

} // verus!
