//! A Voronoi cell as the walk round its boundary.

use crate::geometry::Scalar;
use crate::mesh::TaggedPoint;
use std::collections::VecDeque;
use vstd::prelude::*;

verus! {

/// One step of the walk round a cell: the position where the boundary edge of
/// that step starts, or `None` where the dual edge of the triangulation
/// borders the outer face, so that the cell's corner there is at infinity.
pub type Corner = Option<(Scalar, Scalar)>;

/// The cell of one site of a Voronoi diagram.
///
/// `corners` holds one entry for each edge that leaves the site in the
/// triangulation, in the order of the walk round the cell.
#[derive(Debug, PartialEq, Eq)]
pub struct VoronoiFace {
    pub corners: Vec<Corner>,
}

impl View for VoronoiFace {
    type V = Seq<Corner>;

    open spec fn view(&self) -> Seq<Corner> {
        self.corners@
    }
}

/// A cell is bounded when none of its corners is at infinity.
pub open spec fn bounded(walk: Seq<Corner>) -> bool {
    forall|i: int| 0 <= i < walk.len() ==> (#[trigger] walk[i]) is Some
}

/// Whether the places `0, 1, 2, ..` of the walk's corners all fit in a
/// 32-bit tag.
pub open spec fn taggable(walk: Seq<Corner>) -> bool {
    walk.len() <= u32::MAX + 1
}

/// The polygon of a bounded cell: its corners in walk order, each tagged with
/// its place in the walk.
pub open spec fn polygon_of(walk: Seq<Corner>) -> Seq<TaggedPoint>
    recommends
        bounded(walk),
        taggable(walk),
{
    Seq::new(walk.len(), |i: int| (i as u32, walk[i]->0))
}

impl VoronoiFace {
    /// Tells whether the cell is a finite polygon, which is the case when no
    /// edge leaving its site borders the outer face.
    pub fn is_bounded(&self) -> (b: bool)
        ensures
            b == bounded(self@),
    {
        let mut i: usize = 0;
        while i < self.corners.len()
            invariant
                i <= self.corners@.len(),
                forall|j: int| 0 <= j < i ==> (#[trigger] self.corners@[j]) is Some,
            decreases self.corners@.len() - i,
        {
            if self.corners[i].is_none() {
                return false;
            }
            i += 1;
        }
        true
    }

    /// Collects the polygon of a bounded cell: every corner in walk order,
    /// tagged `0, 1, 2, ..`.
    ///
    /// The cell must be bounded, and its corners must be few enough for their
    /// tags to fit in 32 bits.
    pub fn boundary(&self) -> (points: VecDeque<TaggedPoint>)
        requires
            bounded(self@),
            taggable(self@),
        ensures
            points@ == polygon_of(self@),
    {
        let mut points: VecDeque<TaggedPoint> = VecDeque::new();
        let mut i: usize = 0;
        while i < self.corners.len()
            invariant
                bounded(self@),
                taggable(self@),
                i <= self@.len(),
                points@ == polygon_of(self@).take(i as int),
            decreases self@.len() - i,
        {
            let position = self.corners[i].unwrap();
            points.push_back((i as u32, position));
            assert(points@ =~= polygon_of(self@).take(i + 1));
            i += 1;
        }
        assert(points@ =~= polygon_of(self@));
        points
    }
}

} // verus!
