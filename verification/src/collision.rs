//! Contact detection: which of the pairs that a tick tests become contacts.
//! The arithmetic of a pair (distances, the roots of the sweep) is done
//! outside and handed in; what is decided on it is decided here.

use vstd::prelude::*;
use crate::scalar::{order_key, Scalar, ONE_BITS};
use crate::vector2::Vector2;
use crate::world::{ordered_pairs, pair_ids, CircleKey, Collision, World};

verus! {

/// The pattern of `400.0`: the square of the sum of two radii.
pub const REACH_SQ_BITS: u64 = 0x4079_0000_0000_0000;

/// What the arithmetic yields for one ordered pair of circles, the first
/// being the one that moves.
#[derive(Clone, Copy, Debug)]
pub struct PairGeometry {
    /// The unit vector from the first circle to the second.
    pub normal: Vector2,
    /// The radius times `normal`: from the first circle's centre to the
    /// point of its surface that faces the second.
    pub correction: Vector2,
    /// The squared distance from the second circle's predicted position to
    /// the start of the sweep.
    pub gap_sq: Scalar,
    /// The point of the second circle's surface that faces the first.
    pub surface_p: Vector2,
    /// The discriminant of the sweep's quadratic.
    pub discriminant: Scalar,
    /// The smaller root of the quadratic and the point of the sweep at that
    /// root, where the root is a number.
    pub sweep: Option<(Scalar, Vector2)>,
}

/// A contact by the numbers of its handles.
pub struct CollisionView {
    pub first: u64,
    pub second: u64,
    pub entry_p: Vector2,
    pub normal: Vector2,
    pub correction: Vector2,
}

impl View for Collision {
    type V = CollisionView;

    open spec fn view(&self) -> CollisionView {
        CollisionView {
            first: self.circle_key1@,
            second: self.circle_key2@,
            entry_p: self.entry_p,
            normal: self.normal,
            correction: self.correction,
        }
    }
}

/// Whether the second circle's predicted position is already within reach
/// of the start of the sweep.
pub open spec fn overlaps_now(g: PairGeometry) -> bool {
    order_key(g.gap_sq@) < order_key(REACH_SQ_BITS)
}

/// Whether the sweep meets the second circle during the step: the
/// discriminant is above zero and the smaller root lies in `[0, 1]`.
pub open spec fn sweep_hits(g: PairGeometry) -> bool {
    &&& order_key(g.discriminant@) > 0
    &&& g.sweep.is_some()
    &&& 0 <= order_key(g.sweep.unwrap().0@) <= order_key(ONE_BITS)
}

/// The contact of one pair, if there is one. An overlap is recorded at the
/// second circle's surface; otherwise a hit of the sweep at its entry point.
/// The normal of the record points from the second circle to the first.
pub open spec fn contact_of(pair: (u64, u64), g: PairGeometry) -> Option<CollisionView> {
    if overlaps_now(g) {
        Some(
            CollisionView {
                first: pair.0,
                second: pair.1,
                entry_p: g.surface_p,
                normal: g.normal.negated(),
                correction: g.correction,
            },
        )
    } else if sweep_hits(g) {
        Some(
            CollisionView {
                first: pair.0,
                second: pair.1,
                entry_p: g.sweep.unwrap().1,
                normal: g.normal.negated(),
                correction: g.correction,
            },
        )
    } else {
        None
    }
}

/// The contacts among the first `k` pairs, in their order. A pair without
/// geometry, which is one of two circles at the same place, gives none.
pub open spec fn contacts(
    pairs: Seq<(u64, u64)>,
    geometry: Seq<Option<PairGeometry>>,
    k: int,
) -> Seq<CollisionView>
    decreases k,
{
    if k <= 0 {
        Seq::empty()
    } else {
        let before = contacts(pairs, geometry, k - 1);
        match geometry[k - 1] {
            Some(g) => match contact_of(pairs[k - 1], g) {
                Some(c) => before.push(c),
                None => before,
            },
            None => before,
        }
    }
}

/// A list of contacts by the numbers of their handles.
pub open spec fn collision_views(list: Seq<Collision>) -> Seq<CollisionView> {
    Seq::new(list.len(), |i: int| list[i]@)
}

/// The error of handing in a list whose length is not that of what it is
/// held against.
#[derive(Clone, Copy, Debug, PartialEq, Eq)]
pub struct LengthMismatch;

impl Collision {
    /// Decides on the geometry of one pair whether it is a contact.
    pub fn detect(first: CircleKey, second: CircleKey, g: &PairGeometry) -> (r: Option<Collision>)
        ensures
            r.is_some() == contact_of((first@, second@), *g).is_some(),
            r.is_some() ==> r.unwrap()@ == contact_of((first@, second@), *g).unwrap(),
    {
        let reach = Scalar::from_number_bits(REACH_SQ_BITS);
        if g.gap_sq.lt(reach) {
            return Some(
                Collision {
                    circle_key1: first,
                    circle_key2: second,
                    entry_p: g.surface_p,
                    normal: g.normal.neg(),
                    correction: g.correction,
                },
            );
        }
        if !g.discriminant.is_positive() {
            return None;
        }
        match g.sweep {
            Some((t, entry_p)) => {
                if Scalar::zero().le(t) && t.le(Scalar::one()) {
                    Some(
                        Collision {
                            circle_key1: first,
                            circle_key2: second,
                            entry_p,
                            normal: g.normal.neg(),
                            correction: g.correction,
                        },
                    )
                } else {
                    None
                }
            },
            None => None,
        }
    }
}

impl World {
    /// The contacts of a tick. `geometry` holds, for each pair of
    /// `collision_pairs` in its order, what the arithmetic gave. Every
    /// ordered pair is decided by itself, so two circles that touch give two
    /// records, one with either as the circle that moves. Fails where
    /// `geometry` has not one entry for each pair.
    pub fn find_collisions(&self, geometry: &Vec<Option<PairGeometry>>) -> (r: Result<
        Vec<Collision>,
        LengthMismatch,
    >)
        ensures
            r.is_ok() == (geometry@.len() == ordered_pairs(self.circle_ids()).len()),
            r.is_ok() ==> collision_views(r.unwrap()@) == contacts(
                ordered_pairs(self.circle_ids()),
                geometry@,
                geometry@.len() as int,
            ),
    {
        let pairs = self.collision_pairs();
        if pairs.len() != geometry.len() {
            return Err(LengthMismatch);
        }
        let ghost ids = pair_ids(pairs@);
        let mut out: Vec<Collision> = Vec::new();
        let mut k: usize = 0;
        while k < pairs.len()
            invariant
                0 <= k <= pairs@.len(),
                pairs@.len() == geometry@.len(),
                ids == pair_ids(pairs@),
                collision_views(out@) =~= contacts(ids, geometry@, k as int),
            decreases pairs@.len() - k,
        {
            let (first, second) = pairs[k];
            assert(ids[k as int] == (first@, second@));
            let ghost before = out@;
            match geometry[k] {
                Some(g) => {
                    match Collision::detect(first, second, &g) {
                        Some(c) => {
                            out.push(c);
                            assert(collision_views(out@) =~= collision_views(before).push(c@));
                        },
                        None => {},
                    }
                },
                None => {},
            }
            k = k + 1;
        }
        Ok(out)
    }
}

/// A tick finds no more contacts than it tests pairs.
pub proof fn contacts_bounded(pairs: Seq<(u64, u64)>, geometry: Seq<Option<PairGeometry>>, k: int)
    ensures
        contacts(pairs, geometry, k).len() <= if k <= 0 {
            0
        } else {
            k
        },
    decreases k,
{
    if k > 0 {
        contacts_bounded(pairs, geometry, k - 1);
    }
}

} // verus!
