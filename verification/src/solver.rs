//! The steps of a tick that change the world: prediction, the corrections of
//! the solver, and the commit. The new positions and velocities are computed
//! outside and handed in; which circles take them is decided here.

use vstd::prelude::*;
use crate::collision::LengthMismatch;
use crate::scalar::{order_key, Scalar};
use crate::vector2::Vector2;
use crate::world::{committed, Circle, CircleKey, Collision, Constraint, World};

verus! {

/// The circles after one of them was offered a new predicted position: a
/// circle that is held and movable takes it, any other stays.
pub open spec fn corrected(map: Map<u64, Circle>, id: u64, future_p: Vector2) -> Map<u64, Circle> {
    if map.dom().contains(id) && map[id].movable() {
        map.insert(id, Circle { future_p, ..map[id] })
    } else {
        map
    }
}

/// Whether a distance constraint calls for a correction: both circles are
/// held, they are closer than the rest distance, and one of them can move.
pub open spec fn constraint_pulls(map: Map<u64, Circle>, constraint: Constraint, dist: Scalar) -> bool {
    &&& map.dom().contains(constraint.first()@)
    &&& map.dom().contains(constraint.second()@)
    &&& order_key(dist@) < order_key(constraint.rest()@)
    &&& (map[constraint.first()@].movable() || map[constraint.second()@].movable())
}

/// The circles after one pass of the solver over a distance constraint.
/// `moved` holds the positions that the mass-weighted correction gives the
/// two circles, where they are numbers.
pub open spec fn relaxed(
    map: Map<u64, Circle>,
    constraint: Constraint,
    dist: Scalar,
    moved: Option<(Vector2, Vector2)>,
) -> Map<u64, Circle> {
    if constraint_pulls(map, constraint, dist) && moved.is_some() {
        corrected(
            corrected(map, constraint.first()@, moved.unwrap().0),
            constraint.second()@,
            moved.unwrap().1,
        )
    } else {
        map
    }
}

/// The circles after one pass of the solver over a contact: only the first
/// circle of the record moves, and only where both are still held.
pub open spec fn resolved(
    map: Map<u64, Circle>,
    first: u64,
    second: u64,
    moved: Option<Vector2>,
) -> Map<u64, Circle> {
    if map.dom().contains(first) && map.dom().contains(second) && moved.is_some() {
        corrected(map, first, moved.unwrap())
    } else {
        map
    }
}

/// `entries` lists the circles of `map` under the handles `ids`, each once.
spec fn walk_of(
    entries: Seq<(CircleKey, Circle)>,
    ids: Seq<u64>,
    map: Map<u64, Circle>,
) -> bool {
    &&& entries.len() == ids.len()
    &&& forall|k: int|
        0 <= k < entries.len() ==> (#[trigger] entries[k]).0@ == ids[k] && map.dom().contains(
            ids[k],
        )
    &&& forall|a: int, b: int|
        0 <= a < b < entries.len() ==> (#[trigger] entries[a]).0@ != (#[trigger] entries[b]).0@
}

/// A circle after the first step of a tick.
pub open spec fn predicted(circle: Circle, motion: (Vector2, Vector2)) -> Circle {
    Circle { v: motion.0, future_p: motion.1, ..circle }
}

impl World {
    /// One pass of the solver over a distance constraint. `dist` is the
    /// distance between the predicted positions of its circles; `moved`
    /// holds what the mass-weighted correction makes of the two positions,
    /// or `None` where that is not a number. The constraint only pulls: at
    /// the rest distance or beyond nothing moves. A constraint on a circle
    /// that is gone is skipped. The result says whether a correction was
    /// due and given.
    pub fn relax(
        &mut self,
        constraint: &Constraint,
        dist: Scalar,
        moved: Option<(Vector2, Vector2)>,
    ) -> (r: bool)
        ensures
            r == (constraint_pulls(old(self).circle_map(), *constraint, dist) && moved.is_some()),
            final(self).circle_map() == relaxed(old(self).circle_map(), *constraint, dist, moved),
            final(self).circle_ids() == old(self).circle_ids(),
            final(self).constraint_map() == old(self).constraint_map(),
            final(self).constraint_ids() == old(self).constraint_ids(),
    {
        let (first, second, rest) = match constraint {
            Constraint::CircleDistance(k1, k2, d) => (*k1, *k2, *d),
        };
        let (a, b) = match self.constraint_ends(constraint) {
            Some(ends) => ends,
            None => { return false; },
        };
        if !dist.lt(rest) {
            return false;
        }
        if !a.is_movable() && !b.is_movable() {
            return false;
        }
        match moved {
            Some((to_first, to_second)) => {
                let _ = self.correct(first, to_first);
                let _ = self.correct(second, to_second);
                true
            },
            None => false,
        }
    }

    /// One pass of the solver over a contact. `moved` is what the
    /// mass-weighted correction makes of the first circle's predicted
    /// position, or `None` where that is not a number. The second circle is
    /// never moved, and an immovable first circle stays. The result says
    /// whether the first circle took the position.
    pub fn resolve(&mut self, collision: &Collision, moved: Option<Vector2>) -> (r: bool)
        ensures
            final(self).circle_map() == resolved(
                old(self).circle_map(),
                collision.circle_key1@,
                collision.circle_key2@,
                moved,
            ),
            r == (old(self).circle_map().dom().contains(collision.circle_key1@)
                && old(self).circle_map().dom().contains(collision.circle_key2@)
                && moved.is_some() && old(self).circle_map()[collision.circle_key1@].movable()),
            final(self).circle_ids() == old(self).circle_ids(),
            final(self).constraint_map() == old(self).constraint_map(),
            final(self).constraint_ids() == old(self).constraint_ids(),
    {
        if self.circle(collision.circle_key2).is_none() {
            return false;
        }
        match moved {
            Some(to) => match self.correct(collision.circle_key1, to) {
                Ok(took) => took,
                Err(_) => false,
            },
            None => false,
        }
    }

    /// The first step of a tick: every circle, in the order of the walk,
    /// takes the velocity and the predicted position of the same place in
    /// `motions`. Fails, changing nothing, where `motions` has not one entry
    /// for each circle.
    pub fn run_physics_pre(&mut self, motions: &Vec<(Vector2, Vector2)>) -> (r: Result<
        (),
        LengthMismatch,
    >)
        ensures
            r.is_ok() == (motions@.len() == old(self).circle_ids().len()),
            final(self).circle_ids() == old(self).circle_ids(),
            final(self).constraint_map() == old(self).constraint_map(),
            final(self).constraint_ids() == old(self).constraint_ids(),
            final(self).circle_map().dom() == old(self).circle_map().dom(),
            r.is_err() ==> final(self).circle_map() == old(self).circle_map(),
            r.is_ok() ==> forall|i: int|
                0 <= i < motions@.len() ==> #[trigger] final(self).circle_map()[old(
                    self,
                ).circle_ids()[i]] == predicted(
                    old(self).circle_map()[old(self).circle_ids()[i]],
                    motions@[i],
                ),
    {
        let entries = self.circles();
        if entries.len() != motions.len() {
            return Err(LengthMismatch);
        }
        let ghost before = *self;
        let ghost ids = self.circle_ids();
        let mut i: usize = 0;
        while i < entries.len()
            invariant
                0 <= i <= entries@.len(),
                entries@.len() == motions@.len(),
                ids == before.circle_ids(),
                walk_of(entries@, ids, before.circle_map()),
                self.circle_ids() == ids,
                self.constraint_map() == before.constraint_map(),
                self.constraint_ids() == before.constraint_ids(),
                self.circle_map().dom() == before.circle_map().dom(),
                forall|k: int|
                    0 <= k < i ==> #[trigger] self.circle_map()[ids[k]] == predicted(
                        before.circle_map()[ids[k]],
                        motions@[k],
                    ),
                forall|k: int|
                    i <= k < entries@.len() ==> #[trigger] self.circle_map()[ids[k]]
                        == before.circle_map()[ids[k]],
            decreases entries@.len() - i,
        {
            let key: CircleKey = entries[i].0;
            let motion = motions[i];
            let ghost mid = self.circle_map();
            assert(key@ == ids[i as int]);
            let _ = self.predict(key, motion.0, motion.1);
            assert(self.circle_map().dom() =~= before.circle_map().dom());
            assert forall|k: int| 0 <= k < i + 1 implies #[trigger] self.circle_map()[ids[k]]
                == predicted(before.circle_map()[ids[k]], motions@[k]) by {
                if k < i {
                    assert(entries@[k].0@ != entries@[i as int].0@);
                    assert(mid[ids[k]] == predicted(before.circle_map()[ids[k]], motions@[k]));
                }
            }
            assert forall|k: int| i + 1 <= k < entries@.len() implies #[trigger] self.circle_map()[ids[k]]
                == before.circle_map()[ids[k]] by {
                assert(entries@[i as int].0@ != entries@[k].0@);
                assert(mid[ids[k]] == before.circle_map()[ids[k]]);
            }
            i = i + 1;
        }
        Ok(())
    }

    /// The last step of a tick: for every circle, in the order of the walk,
    /// the predicted position becomes the position, and the velocity becomes
    /// that of the same place in `velocities`, or stays where that is `None`
    /// (a tick of no duration gives no velocity). Fails, changing nothing,
    /// where `velocities` has not one entry for each circle.
    pub fn run_physics(&mut self, velocities: &Vec<Option<Vector2>>) -> (r: Result<
        (),
        LengthMismatch,
    >)
        ensures
            r.is_ok() == (velocities@.len() == old(self).circle_ids().len()),
            final(self).circle_ids() == old(self).circle_ids(),
            final(self).constraint_map() == old(self).constraint_map(),
            final(self).constraint_ids() == old(self).constraint_ids(),
            final(self).circle_map().dom() == old(self).circle_map().dom(),
            r.is_err() ==> final(self).circle_map() == old(self).circle_map(),
            r.is_ok() ==> forall|i: int|
                0 <= i < velocities@.len() ==> #[trigger] final(self).circle_map()[old(
                    self,
                ).circle_ids()[i]] == committed(
                    old(self).circle_map()[old(self).circle_ids()[i]],
                    velocities@[i],
                ),
    {
        let entries = self.circles();
        if entries.len() != velocities.len() {
            return Err(LengthMismatch);
        }
        let ghost before = *self;
        let ghost ids = self.circle_ids();
        let mut i: usize = 0;
        while i < entries.len()
            invariant
                0 <= i <= entries@.len(),
                entries@.len() == velocities@.len(),
                ids == before.circle_ids(),
                walk_of(entries@, ids, before.circle_map()),
                self.circle_ids() == ids,
                self.constraint_map() == before.constraint_map(),
                self.constraint_ids() == before.constraint_ids(),
                self.circle_map().dom() == before.circle_map().dom(),
                forall|k: int|
                    0 <= k < i ==> #[trigger] self.circle_map()[ids[k]] == committed(
                        before.circle_map()[ids[k]],
                        velocities@[k],
                    ),
                forall|k: int|
                    i <= k < entries@.len() ==> #[trigger] self.circle_map()[ids[k]]
                        == before.circle_map()[ids[k]],
            decreases entries@.len() - i,
        {
            let key: CircleKey = entries[i].0;
            let velocity = velocities[i];
            let ghost mid = self.circle_map();
            assert(key@ == ids[i as int]);
            let _ = self.commit(key, velocity);
            assert(self.circle_map().dom() =~= before.circle_map().dom());
            assert forall|k: int| 0 <= k < i + 1 implies #[trigger] self.circle_map()[ids[k]]
                == committed(before.circle_map()[ids[k]], velocities@[k]) by {
                if k < i {
                    assert(entries@[k].0@ != entries@[i as int].0@);
                    assert(mid[ids[k]] == committed(before.circle_map()[ids[k]], velocities@[k]));
                }
            }
            assert forall|k: int| i + 1 <= k < entries@.len() implies #[trigger] self.circle_map()[ids[k]]
                == before.circle_map()[ids[k]] by {
                assert(entries@[i as int].0@ != entries@[k].0@);
                assert(mid[ids[k]] == before.circle_map()[ids[k]]);
            }
            i = i + 1;
        }
        Ok(())
    }
}

/// One pass of the solver: over a distance constraint, with the distance of
/// its circles and the positions that the correction gives them; or over a
/// contact, with its two circles and the position that the correction gives
/// the first.
pub enum Pass {
    Distance(Constraint, Scalar, Option<(Vector2, Vector2)>),
    Contact(u64, u64, Option<Vector2>),
}

/// The circles after one pass.
pub open spec fn pass_applied(map: Map<u64, Circle>, pass: Pass) -> Map<u64, Circle> {
    match pass {
        Pass::Distance(constraint, dist, moved) => relaxed(map, constraint, dist, moved),
        Pass::Contact(first, second, moved) => resolved(map, first, second, moved),
    }
}

/// The circles after a run of passes, one after the other.
pub open spec fn solved(map: Map<u64, Circle>, passes: Seq<Pass>) -> Map<u64, Circle>
    decreases passes.len(),
{
    if passes.len() == 0 {
        map
    } else {
        pass_applied(solved(map, passes.drop_last()), passes.last())
    }
}

/// A distance constraint is one-sided: where its circles are at the rest
/// distance or further apart, a pass of the solver moves nothing.
pub proof fn constraint_only_pulls(
    map: Map<u64, Circle>,
    constraint: Constraint,
    dist: Scalar,
    moved: Option<(Vector2, Vector2)>,
)
    requires
        order_key(dist@) >= order_key(constraint.rest()@),
    ensures
        relaxed(map, constraint, dist, moved) == map,
{
}

/// No pass of the solver, over a constraint or over a contact, moves a
/// circle that is not movable, whatever the other circle is.
pub proof fn immovable_circle_stays(map: Map<u64, Circle>, pass: Pass, id: u64)
    requires
        map.dom().contains(id),
        !map[id].movable(),
    ensures
        pass_applied(map, pass).dom().contains(id),
        pass_applied(map, pass)[id] == map[id],
{
}

/// Between a circle that is not movable and one that is, a correction falls
/// to the movable one alone: it takes the position that the pass offers it,
/// and the other stays.
pub proof fn movable_circle_takes_correction(
    map: Map<u64, Circle>,
    constraint: Constraint,
    dist: Scalar,
    to_first: Vector2,
    to_second: Vector2,
)
    requires
        constraint_pulls(map, constraint, dist),
        constraint.first()@ != constraint.second()@,
        !map[constraint.first()@].movable(),
    ensures
        relaxed(map, constraint, dist, Some((to_first, to_second)))[constraint.first()@]
            == map[constraint.first()@],
        relaxed(map, constraint, dist, Some((to_first, to_second)))[constraint.second()@]
            == (Circle { future_p: to_second, ..map[constraint.second()@] }),
{
}

/// Where neither circle is movable, a pass of the solver over their
/// constraint or their contact changes nothing.
pub proof fn two_immovable_circles_stay(
    map: Map<u64, Circle>,
    constraint: Constraint,
    dist: Scalar,
    moved: Option<(Vector2, Vector2)>,
    moved_first: Option<Vector2>,
)
    requires
        map.dom().contains(constraint.first()@) ==> !map[constraint.first()@].movable(),
        map.dom().contains(constraint.second()@) ==> !map[constraint.second()@].movable(),
    ensures
        relaxed(map, constraint, dist, moved) == map,
        resolved(map, constraint.first()@, constraint.second()@, moved_first) == map,
{
}

/// Whether a pass may move the circle `id`: it is an end of the pass's
/// constraint, or the first circle of its contact.
pub open spec fn pass_names(pass: Pass, id: u64) -> bool {
    match pass {
        Pass::Distance(constraint, _, _) => constraint.first()@ == id || constraint.second()@
            == id,
        Pass::Contact(first, _, _) => first == id,
    }
}

/// A circle that a pass does not name stays as it is.
pub proof fn untouched_circle_stays(map: Map<u64, Circle>, pass: Pass, id: u64)
    requires
        map.dom().contains(id),
        !pass_names(pass, id),
    ensures
        pass_applied(map, pass).dom().contains(id),
        pass_applied(map, pass)[id] == map[id],
{
}

/// A pass works on predicted positions alone: it changes no position,
/// velocity or inverse mass, and neither adds nor drops a circle.
pub proof fn pass_changes_predictions_only(map: Map<u64, Circle>, pass: Pass, id: u64)
    requires
        map.dom().contains(id),
    ensures
        pass_applied(map, pass).dom() == map.dom(),
        pass_applied(map, pass)[id].p == map[id].p,
        pass_applied(map, pass)[id].v == map[id].v,
        pass_applied(map, pass)[id].inv_mass == map[id].inv_mass,
{
    assert(pass_applied(map, pass).dom() =~= map.dom());
}

/// Whatever the solver is given, in any number of passes in any order, it
/// holds the same circles afterwards, each with the position, velocity and
/// inverse mass it had.
pub proof fn solver_changes_predictions_only(map: Map<u64, Circle>, passes: Seq<Pass>, id: u64)
    requires
        map.dom().contains(id),
    ensures
        solved(map, passes).dom() == map.dom(),
        solved(map, passes)[id].p == map[id].p,
        solved(map, passes)[id].v == map[id].v,
        solved(map, passes)[id].inv_mass == map[id].inv_mass,
    decreases passes.len(),
{
    if passes.len() > 0 {
        solver_changes_predictions_only(map, passes.drop_last(), id);
        pass_changes_predictions_only(solved(map, passes.drop_last()), passes.last(), id);
    }
}

/// No run of passes moves a circle that is not movable: its predicted
/// position stays too, whatever its neighbours weigh.
pub proof fn solver_leaves_immovable_circle(map: Map<u64, Circle>, passes: Seq<Pass>, id: u64)
    requires
        map.dom().contains(id),
        !map[id].movable(),
    ensures
        solved(map, passes).dom().contains(id),
        solved(map, passes)[id] == map[id],
    decreases passes.len(),
{
    if passes.len() > 0 {
        solver_leaves_immovable_circle(map, passes.drop_last(), id);
        immovable_circle_stays(solved(map, passes.drop_last()), passes.last(), id);
    }
}

/// A circle without a neighbour, which no pass of a run names, keeps its
/// predicted position over the run.
pub proof fn solver_leaves_untouched_circle(map: Map<u64, Circle>, passes: Seq<Pass>, id: u64)
    requires
        map.dom().contains(id),
        forall|i: int| 0 <= i < passes.len() ==> !pass_names(#[trigger] passes[i], id),
    ensures
        solved(map, passes).dom().contains(id),
        solved(map, passes)[id] == map[id],
    decreases passes.len(),
{
    if passes.len() > 0 {
        let earlier = passes.drop_last();
        assert forall|i: int| 0 <= i < earlier.len() implies !pass_names(
            #[trigger] earlier[i],
            id,
        ) by {
            assert(earlier[i] == passes[i]);
        }
        solver_leaves_untouched_circle(map, earlier, id);
        assert(!pass_names(passes[passes.len() - 1], id));
        untouched_circle_stays(solved(map, earlier), passes.last(), id);
    }
}

/// A circle that is predicted where it is and has no neighbour stays where
/// it is over a whole tick.
pub proof fn untouched_circle_keeps_position(
    map: Map<u64, Circle>,
    passes: Seq<Pass>,
    id: u64,
    v: Option<Vector2>,
)
    requires
        map.dom().contains(id),
        forall|i: int| 0 <= i < passes.len() ==> !pass_names(#[trigger] passes[i], id),
        map[id].future_p == map[id].p,
    ensures
        committed(solved(map, passes)[id], v).p == map[id].p,
{
    solver_leaves_untouched_circle(map, passes, id);
}

/// A circle that is not movable and is predicted where it is stays where it
/// is over a whole tick: after any run of passes and the commit, with
/// whatever velocity, its position is the one it had.
pub proof fn immovable_circle_keeps_position(
    map: Map<u64, Circle>,
    passes: Seq<Pass>,
    id: u64,
    v: Option<Vector2>,
)
    requires
        map.dom().contains(id),
        !map[id].movable(),
        map[id].future_p == map[id].p,
    ensures
        committed(solved(map, passes)[id], v).p == map[id].p,
{
    solver_leaves_immovable_circle(map, passes, id);
}

/// A tick that predicts a circle where it is, with the velocity it has, runs
/// no pass and commits without a velocity, as a tick of no duration does,
/// leaves its position, velocity and inverse mass as they were.
pub proof fn still_tick_keeps_circle(circle: Circle)
    ensures
        committed(predicted(circle, (circle.v, circle.p)), None).p == circle.p,
        committed(predicted(circle, (circle.v, circle.p)), None).v == circle.v,
        committed(predicted(circle, (circle.v, circle.p)), None).inv_mass == circle.inv_mass,
{
}

} // verus!
