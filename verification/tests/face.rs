use voronoi_map::face::Corner;
use voronoi_map::{Scalar, VoronoiFace};

fn corner(x: f32, y: f32) -> Corner {
    Some((Scalar { bits: x.to_bits() }, Scalar { bits: y.to_bits() }))
}

#[test]
fn face_without_corner_at_infinity_is_bounded() {
    let face = VoronoiFace { corners: vec![corner(0.0, 0.0), corner(1.0, 0.0), corner(0.0, 1.0)] };
    assert!(face.is_bounded());
}

#[test]
fn one_corner_at_infinity_makes_the_face_unbounded() {
    let first = VoronoiFace { corners: vec![None, corner(1.0, 0.0), corner(0.0, 1.0)] };
    let middle = VoronoiFace { corners: vec![corner(0.0, 0.0), None, corner(0.0, 1.0)] };
    let last = VoronoiFace { corners: vec![corner(0.0, 0.0), corner(1.0, 0.0), None] };
    let only = VoronoiFace { corners: vec![None] };
    assert!(!first.is_bounded());
    assert!(!middle.is_bounded());
    assert!(!last.is_bounded());
    assert!(!only.is_bounded());
}

#[test]
fn face_without_corners_is_bounded() {
    let face = VoronoiFace { corners: vec![] };
    assert!(face.is_bounded());
    assert!(face.boundary().is_empty());
}

#[test]
fn boundary_tags_the_corners_in_walk_order() {
    let face = VoronoiFace {
        corners: vec![corner(4.0, 5.0), corner(-1.0, 2.0), corner(0.5, 0.25), corner(8.0, -8.0)],
    };
    let points: Vec<_> = face.boundary().into_iter().collect();
    let expected: Vec<_> = face
        .corners
        .iter()
        .enumerate()
        .map(|(i, c)| (i as u32, c.unwrap()))
        .collect();
    assert_eq!(points, expected);
    assert_eq!(points[2].0, 2);
    assert_eq!(f32::from_bits((points[2].1).0.bits), 0.5);
    assert_eq!(f32::from_bits((points[2].1).1.bits), 0.25);
}
