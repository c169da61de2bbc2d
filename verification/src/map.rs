//! From the cells of a diagram to the meshes of a map.

use crate::face::{bounded, polygon_of, taggable, Corner, VoronoiFace};
use crate::mesh::{cell_mesh, generate_cell_mesh, lemma_cell_mesh_shape, CellMesh, CellMeshView};
use vstd::prelude::*;

verus! {

/// A cell becomes a tile of the map when it is bounded and has at least three
/// corners. An unbounded cell has no finite polygon, and fewer than three
/// corners enclose nothing.
pub open spec fn yields_mesh(walk: Seq<Corner>) -> bool {
    bounded(walk) && walk.len() >= 3
}

/// The meshes of a map: one for each cell that yields a mesh, in the order of
/// the cells.
pub open spec fn map_meshes(faces: Seq<Seq<Corner>>) -> Seq<CellMeshView> {
    faces.filter(|walk: Seq<Corner>| yields_mesh(walk)).map_values(
        |walk: Seq<Corner>| cell_mesh(polygon_of(walk)),
    )
}

/// The boundary walks of a list of cells.
pub open spec fn face_views(faces: Seq<VoronoiFace>) -> Seq<Seq<Corner>> {
    faces.map_values(|face: VoronoiFace| face@)
}

/// The contents of a list of meshes.
pub open spec fn mesh_views(meshes: Seq<CellMesh>) -> Seq<CellMeshView> {
    meshes.map_values(|mesh: CellMesh| mesh@)
}

/// Adding a cell at the end of a diagram adds its mesh at the end of the map
/// if the cell yields one, and changes nothing otherwise.
pub proof fn lemma_map_meshes_push(faces: Seq<Seq<Corner>>, walk: Seq<Corner>)
    ensures
        map_meshes(faces.push(walk)) == if yields_mesh(walk) {
            map_meshes(faces).push(cell_mesh(polygon_of(walk)))
        } else {
            map_meshes(faces)
        },
{
    let keep = |walk: Seq<Corner>| yields_mesh(walk);
    let build = |walk: Seq<Corner>| cell_mesh(polygon_of(walk));
    faces.lemma_filter_push(walk, keep);
    if yields_mesh(walk) {
        faces.filter(keep).lemma_push_map_commute(build, walk);
    }
}

/// An unbounded cell leaves no trace in the map. A cell with a corner at
/// infinity, such as the cell of any site on the convex hull, never shows up
/// among the meshes: the map is the same as if that cell were not in the
/// diagram at all.
pub proof fn lemma_unbounded_face_excluded(faces: Seq<Seq<Corner>>, i: int)
    requires
        0 <= i < faces.len(),
        !bounded(faces[i]),
    ensures
        map_meshes(faces) == map_meshes(faces.remove(i)),
{
    let keep = |walk: Seq<Corner>| yields_mesh(walk);
    let before = faces.subrange(0, i);
    let cell = Seq::<Seq<Corner>>::empty().push(faces[i]);
    let after = faces.subrange(i + 1, faces.len() as int);
    assert(faces =~= before + cell + after);
    assert(faces.remove(i) =~= before + after);
    Seq::filter_distributes_over_add(before + cell, after, keep);
    Seq::filter_distributes_over_add(before, cell, keep);
    Seq::filter_distributes_over_add(before, after, keep);
    Seq::<Seq<Corner>>::empty().lemma_filter_push(faces[i], keep);
    Seq::<Seq<Corner>>::empty().lemma_filter_len(keep);
    assert(cell.filter(keep) =~= Seq::empty());
    assert(faces.filter(keep) =~= faces.remove(i).filter(keep));
}

/// A diagram never gives more meshes than it has cells, and every mesh is
/// sound: it is well formed, has at least three positions, and has three
/// indices for each of its `positions - 2` triangles.
pub proof fn lemma_map_meshes_shape(faces: Seq<Seq<Corner>>)
    requires
        forall|i: int|
            0 <= i < faces.len() && yields_mesh(#[trigger] faces[i]) ==> taggable(faces[i]),
    ensures
        map_meshes(faces).len() <= faces.len(),
        forall|k: int|
            0 <= k < map_meshes(faces).len() ==> {
                let mesh = #[trigger] map_meshes(faces)[k];
                &&& mesh.well_formed()
                &&& mesh.positions.len() >= 3
                &&& mesh.indices.len() == 3 * (mesh.positions.len() - 2)
            },
    decreases faces.len(),
{
    if faces.len() == 0 {
        faces.lemma_filter_len(|walk: Seq<Corner>| yields_mesh(walk));
    } else {
        let earlier = faces.drop_last();
        let walk = faces.last();
        assert(faces =~= earlier.push(walk));
        lemma_map_meshes_shape(earlier);
        lemma_map_meshes_push(earlier, walk);
        if yields_mesh(walk) {
            lemma_cell_mesh_shape(polygon_of(walk));
        }
    }
}

/// Cells with fewer than three corners give no mesh. Fewer than three sites
/// leave every cell with at most one neighbour, hence at most one corner, so
/// that such a diagram gives an empty map.
pub proof fn lemma_small_faces_give_nothing(faces: Seq<Seq<Corner>>)
    requires
        forall|i: int| 0 <= i < faces.len() ==> (#[trigger] faces[i]).len() < 3,
    ensures
        map_meshes(faces).len() == 0,
    decreases faces.len(),
{
    if faces.len() == 0 {
        faces.lemma_filter_len(|walk: Seq<Corner>| yields_mesh(walk));
    } else {
        let earlier = faces.drop_last();
        assert(faces =~= earlier.push(faces.last()));
        lemma_small_faces_give_nothing(earlier);
        lemma_map_meshes_push(earlier, faces.last());
    }
}

/// The map depends on the diagram alone. Two runs over the same cells give the
/// same number of meshes, and mesh for mesh the same positions, normals and
/// indices.
pub proof fn lemma_same_diagram_same_map(
    faces: Seq<VoronoiFace>,
    first: Seq<CellMesh>,
    second: Seq<CellMesh>,
)
    requires
        mesh_views(first) == map_meshes(face_views(faces)),
        mesh_views(second) == map_meshes(face_views(faces)),
    ensures
        first.len() == second.len(),
        forall|k: int|
            #![trigger first[k]]
            #![trigger second[k]]
            0 <= k < first.len() ==> {
                &&& first[k].positions@ == second[k].positions@
                &&& first[k].normals@ == second[k].normals@
                &&& first[k].indices@ == second[k].indices@
            },
{
    assert(mesh_views(first).len() == first.len());
    assert(mesh_views(second).len() == second.len());
    assert forall|k: int| 0 <= k < first.len() implies first[k]@ == second[k]@ by {
        assert(mesh_views(first)[k] == first[k]@);
        assert(mesh_views(second)[k] == second[k]@);
    }
}

/// Builds the map of a Voronoi diagram: the mesh of every cell that is a
/// finite polygon, in the order of the cells.
///
/// A cell with a corner at infinity is left out, and so is a cell with fewer
/// than three corners. Every other cell gives one mesh, built from its corners
/// tagged `0, 1, 2, ..` in walk order, so that each mesh is well formed.
///
/// No cell that yields a mesh may have more corners than 32-bit tags can tell
/// apart.
pub fn generate_map(faces: &Vec<VoronoiFace>) -> (meshes: Vec<CellMesh>)
    requires
        forall|i: int|
            0 <= i < faces@.len() && yields_mesh((#[trigger] faces@[i])@) ==> taggable(faces@[i]@),
    ensures
        mesh_views(meshes@) == map_meshes(face_views(faces@)),
        meshes@.len() <= faces@.len(),
        forall|k: int| 0 <= k < meshes@.len() ==> (#[trigger] meshes@[k])@.well_formed(),
        forall|k: int|
            0 <= k < meshes@.len() ==> (#[trigger] meshes@[k])@.indices.len() == 3 * (
                meshes@[k]@.positions.len() - 2
            ),
{
    let mut meshes: Vec<CellMesh> = Vec::new();
    let mut i: usize = 0;
    while i < faces.len()
        invariant
            forall|i: int|
                0 <= i < faces@.len() && yields_mesh((#[trigger] faces@[i])@) ==> taggable(
                    faces@[i]@,
                ),
            i <= faces@.len(),
            mesh_views(meshes@) == map_meshes(face_views(faces@.take(i as int))),
            meshes@.len() <= i,
            forall|k: int| 0 <= k < meshes@.len() ==> (#[trigger] meshes@[k])@.well_formed(),
            forall|k: int|
                0 <= k < meshes@.len() ==> (#[trigger] meshes@[k])@.indices.len() == 3 * (
                    meshes@[k]@.positions.len() - 2
                ),
        decreases faces@.len() - i,
    {
        let face = &faces[i];
        proof {
            let seen = faces@.take(i as int);
            assert(faces@.take(i + 1) =~= seen.push(*face));
            assert(face_views(seen.push(*face)) =~= face_views(seen).push(face@));
            lemma_map_meshes_push(face_views(seen), face@);
        }
        if face.is_bounded() && face.corners.len() >= 3 {
            let points = face.boundary();
            let mesh = generate_cell_mesh(points);
            proof {
                assert(mesh_views(meshes@.push(mesh)) =~= mesh_views(meshes@).push(mesh@));
            }
            meshes.push(mesh);
        }
        i += 1;
    }
    assert(faces@.take(faces@.len() as int) =~= faces@);
    meshes
}

} // verus!
