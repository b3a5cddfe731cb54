//! Finding the circle under a point.

use vstd::prelude::*;
use crate::collision::LengthMismatch;
use crate::scalar::{order_key, Scalar};
use crate::world::{Circle, CircleKey, World};

verus! {

/// The pattern of `100.0`: the square of the radius.
pub const RADIUS_SQ_BITS: u64 = 0x4059_0000_0000_0000;

/// Whether a point at the given squared distance from a circle's centre
/// lies inside its disk.
pub open spec fn inside_disk(dist_sq: Scalar) -> bool {
    order_key(dist_sq@) < order_key(RADIUS_SQ_BITS)
}

impl Circle {
    /// Whether the disk holds a point whose squared distance from the
    /// committed position is `dist_sq`. The rim is outside.
    pub fn contains(&self, dist_sq: Scalar) -> (r: bool)
        ensures
            r == inside_disk(dist_sq),
    {
        let radius_sq = Scalar::from_number_bits(RADIUS_SQ_BITS);
        dist_sq.lt(radius_sq)
    }
}

impl World {
    /// The first circle, in the order of the walk, whose disk holds a point.
    /// `dist_sq` holds the squared distance of the point from each circle's
    /// position, in that order. `Ok(None)` where no disk holds it. Fails
    /// where `dist_sq` has not one entry for each circle.
    pub fn circle_at(&self, dist_sq: &Vec<Scalar>) -> (r: Result<
        Option<(CircleKey, Circle)>,
        LengthMismatch,
    >)
        ensures
            r.is_ok() == (dist_sq@.len() == self.circle_ids().len()),
            r.is_ok() && r.unwrap().is_none() ==> forall|i: int|
                0 <= i < dist_sq@.len() ==> !inside_disk(#[trigger] dist_sq@[i]),
            r.is_ok() && r.unwrap().is_some() ==> exists|i: int|
                {
                    &&& 0 <= i < dist_sq@.len()
                    &&& inside_disk(#[trigger] dist_sq@[i])
                    &&& forall|j: int| 0 <= j < i ==> !inside_disk(#[trigger] dist_sq@[j])
                    &&& r.unwrap().unwrap().0@ == self.circle_ids()[i]
                    &&& self.circle_map().dom().contains(self.circle_ids()[i])
                    &&& r.unwrap().unwrap().1 == self.circle_map()[self.circle_ids()[i]]
                },
    {
        let entries = self.circles();
        if entries.len() != dist_sq.len() {
            return Err(LengthMismatch);
        }
        let mut i: usize = 0;
        while i < entries.len()
            invariant
                0 <= i <= entries@.len(),
                entries@.len() == dist_sq@.len(),
                entries@.len() == self.circle_ids().len(),
                forall|k: int|
                    0 <= k < entries@.len() ==> {
                        &&& (#[trigger] entries@[k]).0@ == self.circle_ids()[k]
                        &&& self.circle_map().dom().contains(self.circle_ids()[k])
                        &&& entries@[k].1 == self.circle_map()[self.circle_ids()[k]]
                    },
                forall|j: int| 0 <= j < i ==> !inside_disk(#[trigger] dist_sq@[j]),
            decreases entries@.len() - i,
        {
            let (key, circle) = entries[i];
            if circle.contains(dist_sq[i]) {
                assert(inside_disk(dist_sq@[i as int]));
                assert(entries@[i as int].0@ == self.circle_ids()[i as int]);
                return Ok(Some((key, circle)));
            }
            i = i + 1;
        }
        Ok(None)
    }
}

} // verus!
