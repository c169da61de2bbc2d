use voronoi_map::face::Corner;
use voronoi_map::{generate_cell_mesh, generate_map, Scalar, Vector3, VoronoiFace};

fn corner(x: f32, y: f32) -> Corner {
    Some((Scalar { bits: x.to_bits() }, Scalar { bits: y.to_bits() }))
}

fn ground(x: f32, y: f32) -> Vector3 {
    Vector3 {
        x: Scalar { bits: x.to_bits() },
        y: Scalar { bits: 0.0f32.to_bits() },
        z: Scalar { bits: y.to_bits() },
    }
}

#[test]
fn empty_diagram_gives_empty_map() {
    assert!(generate_map(&vec![]).is_empty());
}

#[test]
fn unbounded_faces_give_no_mesh() {
    let faces = vec![
        VoronoiFace { corners: vec![None, corner(1.0, 0.0), corner(0.0, 1.0)] },
        VoronoiFace { corners: vec![corner(0.0, 0.0), corner(1.0, 0.0), corner(0.0, 1.0), None] },
        VoronoiFace { corners: vec![None] },
    ];
    assert!(generate_map(&faces).is_empty());
}

#[test]
fn faces_with_fewer_than_three_corners_give_no_mesh() {
    let faces = vec![
        VoronoiFace { corners: vec![] },
        VoronoiFace { corners: vec![corner(0.0, 0.0)] },
        VoronoiFace { corners: vec![corner(0.0, 0.0), corner(1.0, 0.0)] },
    ];
    assert!(generate_map(&faces).is_empty());
}

#[test]
fn bounded_faces_give_their_meshes_in_order() {
    let faces = vec![
        VoronoiFace { corners: vec![corner(0.0, 0.0), None, corner(0.0, 1.0)] },
        VoronoiFace { corners: vec![corner(0.0, 0.0), corner(1.0, 0.0), corner(0.0, 1.0)] },
        VoronoiFace { corners: vec![corner(0.0, 0.0), corner(1.0, 0.0)] },
        VoronoiFace { corners: vec![] },
        VoronoiFace {
            corners: vec![corner(2.0, 2.0), corner(3.0, 2.0), corner(3.0, 3.0), corner(2.0, 3.0)],
        },
    ];
    let meshes = generate_map(&faces);
    assert_eq!(meshes.len(), 2);

    assert_eq!(
        meshes[0].positions,
        vec![ground(0.0, 0.0), ground(1.0, 0.0), ground(0.0, 1.0)]
    );
    assert_eq!(meshes[0].normals, vec![Vector3::up(); 3]);
    assert_eq!(meshes[0].indices, vec![0, 2, 1]);

    assert_eq!(
        meshes[1].positions,
        vec![ground(2.0, 2.0), ground(3.0, 2.0), ground(3.0, 3.0), ground(2.0, 3.0)]
    );
    assert_eq!(meshes[1].normals, vec![Vector3::up(); 4]);
    assert_eq!(meshes[1].indices, vec![0, 2, 1, 2, 0, 3]);
}

#[test]
fn map_mesh_is_the_cell_mesh_of_the_boundary() {
    let face = VoronoiFace {
        corners: vec![
            corner(0.0, 0.0),
            corner(2.0, 0.0),
            corner(3.0, 1.0),
            corner(2.0, 2.0),
            corner(0.0, 2.0),
        ],
    };
    let expected = generate_cell_mesh(face.boundary());
    let meshes = generate_map(&vec![face]);
    assert_eq!(meshes.len(), 1);
    assert_eq!(meshes[0], expected);
    assert_eq!(meshes[0].indices, vec![0, 2, 1, 2, 4, 3, 4, 2, 0]);
}

#[test]
fn removing_an_unbounded_face_changes_nothing() {
    let open_cell = || VoronoiFace { corners: vec![corner(0.0, 0.0), None, corner(0.0, 1.0)] };
    let tile = || VoronoiFace { corners: vec![corner(0.0, 0.0), corner(1.0, 0.0), corner(0.0, 1.0)] };
    let with = generate_map(&vec![tile(), open_cell(), tile()]);
    let without = generate_map(&vec![tile(), tile()]);
    assert_eq!(with, without);
    assert_eq!(with.len(), 2);
}

#[test]
fn same_diagram_gives_the_same_map() {
    let faces = vec![
        VoronoiFace { corners: vec![corner(0.0, 0.0), corner(1.0, 0.0), corner(0.0, 1.0)] },
        VoronoiFace { corners: vec![None, corner(1.0, 0.0)] },
        VoronoiFace {
            corners: vec![corner(2.0, 2.0), corner(3.0, 2.0), corner(3.0, 3.0), corner(2.0, 3.0)],
        },
    ];
    assert_eq!(generate_map(&faces), generate_map(&faces));
}
