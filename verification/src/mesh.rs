//! Turning one cell polygon into a flat triangle mesh.

use crate::geometry::{Scalar, Vector3};
use std::collections::VecDeque;
use vstd::prelude::*;

verus! {

/// A boundary vertex of a cell: an index tag and a position in the map plane.
pub type TaggedPoint = (u32, (Scalar, Scalar));

/// The index tags of a boundary walk, in order.
pub open spec fn tags_of(points: Seq<TaggedPoint>) -> Seq<u32> {
    Seq::new(points.len(), |i: int| points[i].0)
}

/// What is left of a boundary walk once its first ear is cut off: the second
/// entry is gone, and the first entry has moved to the rear.
pub open spec fn after_ear<T>(walk: Seq<T>) -> Seq<T>
    recommends
        walk.len() >= 3,
{
    walk.subrange(2, walk.len() as int).push(walk[0])
}

/// The triangle list that ear trimming gives for a walk of index tags.
///
/// While at least three tags `a, b, c, ..` are left, the triangle `(a, c, b)`
/// is emitted, `b` is dropped, and `a` moves to the rear, so that the next
/// triangle starts at `c`. Fewer than three tags give no triangle.
pub open spec fn ear_trim(tags: Seq<u32>) -> Seq<u32>
    decreases tags.len(),
{
    if tags.len() < 3 {
        Seq::empty()
    } else {
        seq![tags[0], tags[2], tags[1]] + ear_trim(after_ear(tags))
    }
}

/// The mathematical content of a mesh: three sequences.
pub struct CellMeshView {
    pub positions: Seq<Vector3>,
    pub normals: Seq<Vector3>,
    pub indices: Seq<u32>,
}

impl CellMeshView {
    /// A mesh is well formed when there is one normal per position, every
    /// normal points up, the indices come in threes, and each index names a
    /// position of the mesh.
    pub open spec fn well_formed(self) -> bool {
        &&& self.normals.len() == self.positions.len()
        &&& forall|i: int| 0 <= i < self.normals.len() ==> self.normals[i] == Vector3::up()
        &&& self.indices.len() % 3 == 0
        &&& forall|k: int| 0 <= k < self.indices.len() ==> self.indices[k] < self.positions.len()
    }
}

/// A flat triangle list: positions, one normal per position, and three
/// indices into the positions for each triangle.
#[derive(Debug, PartialEq, Eq)]
pub struct CellMesh {
    pub positions: Vec<Vector3>,
    pub normals: Vec<Vector3>,
    pub indices: Vec<u32>,
}

impl View for CellMesh {
    type V = CellMeshView;

    open spec fn view(&self) -> CellMeshView {
        CellMeshView {
            positions: self.positions@,
            normals: self.normals@,
            indices: self.indices@,
        }
    }
}

/// The mesh of a cell: each boundary point lifted to height zero, an upward
/// normal for each, and the ear-trimmed triangles over the points' tags.
pub open spec fn cell_mesh(points: Seq<TaggedPoint>) -> CellMeshView {
    CellMeshView {
        positions: Seq::new(points.len(), |i: int| Vector3::on_ground(points[i].1)),
        normals: Seq::new(points.len(), |i: int| Vector3::up()),
        indices: ear_trim(tags_of(points)),
    }
}

/// Whether every tag of a walk is smaller than the number of its points, so
/// that it can serve as an index into the positions of the walk's mesh.
pub open spec fn tags_in_range(points: Seq<TaggedPoint>) -> bool {
    forall|i: int| 0 <= i < points.len() ==> (#[trigger] points[i]).0 < points.len()
}

/// Ear trimming a walk of `n >= 3` tags gives `n - 2` triangles.
pub proof fn lemma_ear_trim_len(tags: Seq<u32>)
    ensures
        tags.len() >= 3 ==> ear_trim(tags).len() == 3 * (tags.len() - 2),
        tags.len() < 3 ==> ear_trim(tags).len() == 0,
    decreases tags.len(),
{
    if tags.len() >= 3 {
        lemma_ear_trim_len(after_ear(tags));
    }
}

/// Ear trimming invents no index: every entry of the triangle list is one of
/// the tags it was given.
pub proof fn lemma_ear_trim_uses_tags(tags: Seq<u32>)
    ensures
        forall|k: int|
            0 <= k < ear_trim(tags).len() ==> tags.contains(#[trigger] ear_trim(tags)[k]),
    decreases tags.len(),
{
    if tags.len() >= 3 {
        let rest = after_ear(tags);
        lemma_ear_trim_uses_tags(rest);
        assert forall|k: int| 0 <= k < ear_trim(tags).len() implies tags.contains(
            #[trigger] ear_trim(tags)[k],
        ) by {
            if k >= 3 {
                let t = ear_trim(rest)[k - 3];
                assert(rest.contains(t));
                let j = choose|j: int| 0 <= j < rest.len() && rest[j] == t;
                if j < rest.len() - 1 {
                    assert(tags[j + 2] == t);
                } else {
                    assert(tags[0] == t);
                }
            } else if k == 0 {
                assert(tags[0] == ear_trim(tags)[k]);
            } else if k == 1 {
                assert(tags[2] == ear_trim(tags)[k]);
            } else {
                assert(tags[1] == ear_trim(tags)[k]);
            }
        }
    }
}

/// Ear trimming leaves no vertex out: with at least three tags, every tag
/// occurs in the triangle list.
pub proof fn lemma_ear_trim_covers_tags(tags: Seq<u32>)
    requires
        tags.len() >= 3,
    ensures
        forall|i: int| 0 <= i < tags.len() ==> ear_trim(tags).contains(#[trigger] tags[i]),
    decreases tags.len(),
{
    let rest = after_ear(tags);
    let out = ear_trim(tags);
    lemma_ear_trim_len(tags);
    lemma_ear_trim_len(rest);
    assert(out[0] == tags[0]);
    assert(out[1] == tags[2]);
    assert(out[2] == tags[1]);
    if rest.len() >= 3 {
        lemma_ear_trim_covers_tags(rest);
        assert forall|i: int| 3 <= i < tags.len() implies out.contains(#[trigger] tags[i]) by {
            assert(rest[i - 2] == tags[i]);
            assert(ear_trim(rest).contains(rest[i - 2]));
            let k = choose|k: int| 0 <= k < ear_trim(rest).len() && ear_trim(rest)[k] == tags[i];
            assert(out[k + 3] == tags[i]);
        }
    }
}

/// No triangle is degenerate in its indices: when the tags of the walk are
/// pairwise different, so are the three corners of every triangle.
pub proof fn lemma_ear_trim_triangles_distinct(tags: Seq<u32>, t: int)
    requires
        tags.no_duplicates(),
        tags.len() >= 3,
        0 <= t < tags.len() - 2,
    ensures
        3 * t + 2 < ear_trim(tags).len(),
        ear_trim(tags)[3 * t] != ear_trim(tags)[3 * t + 1],
        ear_trim(tags)[3 * t] != ear_trim(tags)[3 * t + 2],
        ear_trim(tags)[3 * t + 1] != ear_trim(tags)[3 * t + 2],
    decreases tags.len(),
{
    let rest = after_ear(tags);
    lemma_ear_trim_len(tags);
    lemma_ear_trim_len(rest);
    if t > 0 {
        assert forall|i: int, j: int|
            0 <= i < rest.len() && 0 <= j < rest.len() && i != j implies rest[i] != rest[j] by {
            let si = if i < rest.len() - 1 { i + 2 } else { 0 };
            let sj = if j < rest.len() - 1 { j + 2 } else { 0 };
            assert(rest[i] == tags[si]);
            assert(rest[j] == tags[sj]);
        }
        lemma_ear_trim_triangles_distinct(rest, t - 1);
        assert(ear_trim(tags)[3 * t] == ear_trim(rest)[3 * (t - 1)]);
        assert(ear_trim(tags)[3 * t + 1] == ear_trim(rest)[3 * (t - 1) + 1]);
        assert(ear_trim(tags)[3 * t + 2] == ear_trim(rest)[3 * (t - 1) + 2]);
    }
}

/// The mesh of any cell has one upward normal per position and `n - 2`
/// triangles for `n >= 3` boundary points. Tags in range make it well formed,
/// and from three points on nothing else does: every tag is then used as an
/// index.
pub proof fn lemma_cell_mesh_shape(points: Seq<TaggedPoint>)
    ensures
        cell_mesh(points).positions.len() == points.len(),
        cell_mesh(points).normals.len() == points.len(),
        forall|i: int|
            0 <= i < points.len() ==> (#[trigger] cell_mesh(points).normals[i]) == Vector3::up(),
        points.len() >= 3 ==> cell_mesh(points).indices.len() == 3 * (points.len() - 2),
        points.len() < 3 ==> cell_mesh(points).indices.len() == 0,
        tags_in_range(points) ==> cell_mesh(points).well_formed(),
        points.len() >= 3 && cell_mesh(points).well_formed() ==> tags_in_range(points),
{
    let tags = tags_of(points);
    let mesh = cell_mesh(points);
    lemma_ear_trim_len(tags);
    lemma_ear_trim_uses_tags(tags);
    if tags_in_range(points) {
        assert forall|k: int| 0 <= k < mesh.indices.len() implies mesh.indices[k]
            < mesh.positions.len() by {
            assert(tags.contains(ear_trim(tags)[k]));
            let j = choose|j: int| 0 <= j < tags.len() && tags[j] == ear_trim(tags)[k];
            assert(points[j].0 < points.len());
        }
    }
    if points.len() >= 3 && mesh.well_formed() {
        lemma_ear_trim_covers_tags(tags);
        assert forall|i: int| 0 <= i < points.len() implies (#[trigger] points[i]).0
            < points.len() by {
            assert(ear_trim(tags).contains(tags[i]));
            let k = choose|k: int| 0 <= k < ear_trim(tags).len() && ear_trim(tags)[k] == tags[i];
            assert(mesh.indices[k] < mesh.positions.len());
        }
    }
}

/// Builds the flat mesh of one cell from the walk round its boundary.
///
/// Each point `(x, y)` becomes the position `(x, 0, y)` with the normal
/// `(0, 1, 0)`. The triangles come from ear trimming the walk from its front:
/// of the first three points `a, b, c` the triangle `(a, c, b)` is emitted, `b`
/// is dropped and `a` moves to the rear, until fewer than three are left. The
/// triangles name their corners by the points' tags, so the mesh is well
/// formed exactly when every tag is smaller than the number of points.
///
/// The walk must have at least three points.
pub fn generate_cell_mesh(points: VecDeque<TaggedPoint>) -> (mesh: CellMesh)
    requires
        points@.len() >= 3,
    ensures
        mesh@ == cell_mesh(points@),
        mesh@.positions.len() == points@.len(),
        mesh@.normals.len() == mesh@.positions.len(),
        forall|i: int| 0 <= i < mesh@.normals.len() ==> mesh@.normals[i] == Vector3::up(),
        mesh@.indices.len() == 3 * (points@.len() - 2),
        mesh@.well_formed() <==> tags_in_range(points@),
{
    let mut points = points;
    let ghost walk = points@;
    let count: usize = points.len();

    let mut point_list: Vec<Vector3> = Vec::with_capacity(count);
    let mut normal_list: Vec<Vector3> = Vec::with_capacity(count);
    let mut i: usize = 0;
    while i < count
        invariant
            points@ == walk,
            count == walk.len(),
            i <= count,
            point_list@.len() == i,
            normal_list@.len() == i,
            forall|j: int| 0 <= j < i ==> point_list@[j] == Vector3::on_ground(walk[j].1),
            forall|j: int| 0 <= j < i ==> normal_list@[j] == Vector3::up(),
        decreases count - i,
    {
        let (_tag, position) = points[i];
        point_list.push(Vector3::on_ground(position));
        normal_list.push(Vector3::up());
        i += 1;
    }

    let mut triangle_list: Vec<u32> = Vec::with_capacity(count - 2);
    while points.len() >= 3
        invariant
            triangle_list@ + ear_trim(tags_of(points@)) == ear_trim(tags_of(walk)),
        decreases points@.len(),
    {
        let ghost before = points@;
        let ghost emitted = triangle_list@;
        let a = points.pop_front().unwrap();
        let b = points.pop_front().unwrap();
        let c = points.pop_front().unwrap();
        triangle_list.push(a.0);
        triangle_list.push(c.0);
        triangle_list.push(b.0);
        points.push_back(a);
        points.push_front(c);
        proof {
            assert(points@ =~= after_ear(before));
            assert(tags_of(points@) =~= after_ear(tags_of(before)));
            assert(triangle_list@ =~= emitted + seq![a.0, c.0, b.0]);
            assert(triangle_list@ + ear_trim(tags_of(points@)) =~= emitted + ear_trim(
                tags_of(before),
            ));
        }
    }

    let mesh = CellMesh { positions: point_list, normals: normal_list, indices: triangle_list };
    proof {
        lemma_cell_mesh_shape(walk);
        assert(mesh@.positions =~= cell_mesh(walk).positions);
        assert(mesh@.normals =~= cell_mesh(walk).normals);
        assert(mesh@.indices =~= cell_mesh(walk).indices);
    }
    mesh
}

} // verus!
