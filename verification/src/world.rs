//! Circles, constraints and the world that owns them behind handles.

use vstd::prelude::*;
use slotmap::DefaultKey;
use crate::scalar::{order_key, Scalar};
use crate::store::{
    circle_arena_get, circle_arena_get_mut, circle_arena_insert, circle_arena_keys, circle_arena_len, circle_arena_new,
    circle_arena_remove,
    constraint_arena_len,
    circle_contents, circle_order, constraint_arena_get, constraint_arena_insert,
    constraint_arena_keys, constraint_arena_new, constraint_contents, constraint_order, key_id,
    joined, key_number, CircleArena, ConstraintArena, ARENA_LIMIT,
};
use crate::vector2::Vector2;

verus! {

/// The pattern of `10.0`, the radius that every circle has.
pub const RADIUS_BITS: u64 = 0x4024_0000_0000_0000;

/// The error of naming a circle that the world does not hold.
#[derive(Clone, Copy, Debug, PartialEq, Eq)]
pub struct HandleNotFound;

/// A disk of fixed radius with a point mass.
#[derive(Clone, Copy, Debug)]
pub struct Circle {
    /// The inverse of the mass; zero marks a circle that nothing moves.
    pub inv_mass: Scalar,
    /// The committed position.
    pub p: Vector2,
    /// The position that the current tick predicts.
    pub future_p: Vector2,
    /// The velocity.
    pub v: Vector2,
}

/// The handle of a circle.
#[derive(Clone, Copy, Debug)]
pub struct CircleKey {
    key: DefaultKey,
}

/// The handle of a constraint.
#[derive(Clone, Copy, Debug)]
pub struct ConstraintKey {
    key: DefaultKey,
}

/// A rule that the solver keeps between circles.
#[derive(Clone, Copy, Debug)]
pub enum Constraint {
    /// The two circles are pulled together until they are no further apart
    /// than the given distance.
    CircleDistance(CircleKey, CircleKey, Scalar),
}

/// A contact found for one tick: `circle_key1` is the circle that moves,
/// `normal` points from the second circle to the first.
#[derive(Clone, Copy, Debug)]
pub struct Collision {
    pub circle_key1: CircleKey,
    pub circle_key2: CircleKey,
    pub entry_p: Vector2,
    pub normal: Vector2,
    pub correction: Vector2,
}

/// The circles and constraints of a scene.
pub struct World {
    circles: CircleArena,
    constraints: ConstraintArena,
}

impl View for CircleKey {
    type V = u64;

    closed spec fn view(&self) -> u64 {
        key_id(self.key)
    }
}

impl View for ConstraintKey {
    type V = u64;

    closed spec fn view(&self) -> u64 {
        key_id(self.key)
    }
}

impl CircleKey {
    /// The number of this handle: slot index and generation.
    pub fn id(self) -> (r: u64)
        ensures
            r == self@,
    {
        key_number(self.key)
    }

    /// Whether the two handles are the same.
    pub fn same(self, other: CircleKey) -> (r: bool)
        ensures
            r == (self@ == other@),
    {
        key_number(self.key) == key_number(other.key)
    }
}

impl ConstraintKey {
    /// The number of this handle: slot index and generation.
    pub fn id(self) -> (r: u64)
        ensures
            r == self@,
    {
        key_number(self.key)
    }
}

impl Constraint {
    /// The handle of the first circle.
    pub open spec fn first(&self) -> CircleKey {
        match *self {
            Constraint::CircleDistance(k1, _, _) => k1,
        }
    }

    /// The handle of the second circle.
    pub open spec fn second(&self) -> CircleKey {
        match *self {
            Constraint::CircleDistance(_, k2, _) => k2,
        }
    }

    /// The rest distance.
    pub open spec fn rest(&self) -> Scalar {
        match *self {
            Constraint::CircleDistance(_, _, d) => d,
        }
    }
}

impl Circle {
    /// A circle can be moved when its inverse mass is above zero.
    pub open spec fn movable(&self) -> bool {
        order_key(self.inv_mass@) > 0
    }

    /// Whether forces and corrections move this circle.
    pub fn is_movable(&self) -> (r: bool)
        ensures
            r == self.movable(),
    {
        self.inv_mass.is_positive()
    }

    /// A circle at rest at `p`.
    pub fn new(inv_mass: Scalar, p: Vector2) -> (r: Circle)
        ensures
            r.inv_mass == inv_mass,
            r.p == p,
            r.future_p == p,
            r.v.x@ == 0,
            r.v.y@ == 0,
    {
        Circle { inv_mass, p, future_p: p, v: Vector2::zero() }
    }

    /// The committed position.
    pub fn p(&self) -> (r: Vector2)
        ensures
            r == self.p,
    {
        self.p
    }

    /// The pattern of the first coordinate of the committed position.
    pub fn x_prim(&self) -> (r: u64)
        ensures
            r == self.p.x@,
    {
        self.p.x.to_bits()
    }

    /// The pattern of the second coordinate of the committed position.
    pub fn y_prim(&self) -> (r: u64)
        ensures
            r == self.p.y@,
    {
        self.p.y.to_bits()
    }

    /// The radius, the same for every circle.
    pub fn radius(&self) -> (r: Scalar)
        ensures
            r@ == RADIUS_BITS,
    {
        Scalar::from_number_bits(RADIUS_BITS)
    }
}

/// The two worlds differ in the circle `id` alone, which is `circle` in the
/// second.
pub open spec fn only_circle_differs(before: &World, after: &World, id: u64, circle: Circle) -> bool {
    &&& after.circle_map() == before.circle_map().insert(id, circle)
    &&& after.circle_ids() == before.circle_ids()
    &&& after.constraint_map() == before.constraint_map()
    &&& after.constraint_ids() == before.constraint_ids()
}

/// Nothing differs between the two worlds.
pub open spec fn nothing_differs(before: &World, after: &World) -> bool {
    &&& after.circle_map() == before.circle_map()
    &&& after.circle_ids() == before.circle_ids()
    &&& after.constraint_map() == before.constraint_map()
    &&& after.constraint_ids() == before.constraint_ids()
}

impl World {
    /// The circles, by the number of their handle.
    pub closed spec fn circle_map(&self) -> Map<u64, Circle> {
        circle_contents(self.circles)
    }

    /// The numbers of the circles' handles, in the order of the walk.
    pub closed spec fn circle_ids(&self) -> Seq<u64> {
        circle_order(self.circles)
    }

    /// The constraints, by the number of their handle.
    pub closed spec fn constraint_map(&self) -> Map<u64, Constraint> {
        constraint_contents(self.constraints)
    }

    /// The numbers of the constraints' handles, in the order of the walk.
    pub closed spec fn constraint_ids(&self) -> Seq<u64> {
        constraint_order(self.constraints)
    }

    /// A world that holds nothing.
    pub fn new() -> (r: World)
        ensures
            r.circle_map() == Map::<u64, Circle>::empty(),
            r.circle_ids() == Seq::<u64>::empty(),
            r.constraint_map() == Map::<u64, Constraint>::empty(),
            r.constraint_ids() == Seq::<u64>::empty(),
    {
        let r = World { circles: circle_arena_new(), constraints: constraint_arena_new() };
        assert(r.circle_map() =~= Map::<u64, Circle>::empty());
        assert(r.circle_ids() =~= Seq::<u64>::empty());
        assert(r.constraint_map() =~= Map::<u64, Constraint>::empty());
        assert(r.constraint_ids() =~= Seq::<u64>::empty());
        r
    }

    /// Stores the circle under a handle that the world did not hold. The
    /// circles that were there keep their places in the walk.
    pub fn add_circle(&mut self, circle: Circle) -> (r: CircleKey)
        requires
            old(self).circle_ids().len() < ARENA_LIMIT,
        ensures
            !old(self).circle_map().dom().contains(r@),
            final(self).circle_map() == old(self).circle_map().insert(r@, circle),
            joined(old(self).circle_ids(), final(self).circle_ids(), r@),
            final(self).constraint_map() == old(self).constraint_map(),
            final(self).constraint_ids() == old(self).constraint_ids(),
    {
        let key = circle_arena_insert(&mut self.circles, circle);
        CircleKey { key }
    }

    /// The number of circles.
    pub fn circle_count(&self) -> (r: usize)
        ensures
            r == self.circle_ids().len(),
    {
        circle_arena_len(&self.circles)
    }

    /// The number of constraints.
    pub fn constraint_count(&self) -> (r: usize)
        ensures
            r == self.constraint_ids().len(),
    {
        constraint_arena_len(&self.constraints)
    }

    /// Stores the circle as `add_circle` does, or gives `None` and changes
    /// nothing where the world is full.
    pub fn try_add_circle(&mut self, circle: Circle) -> (r: Option<CircleKey>)
        ensures
            r.is_some() == (old(self).circle_ids().len() < ARENA_LIMIT),
            r.is_none() ==> nothing_differs(old(self), final(self)),
            r.is_some() ==> {
                &&& !old(self).circle_map().dom().contains(r.unwrap()@)
                &&& final(self).circle_map() == old(self).circle_map().insert(r.unwrap()@, circle)
                &&& joined(old(self).circle_ids(), final(self).circle_ids(), r.unwrap()@)
                &&& final(self).constraint_map() == old(self).constraint_map()
                &&& final(self).constraint_ids() == old(self).constraint_ids()
            },
    {
        if self.circle_count() < ARENA_LIMIT {
            Some(self.add_circle(circle))
        } else {
            None
        }
    }

    /// Stores the constraint as `add_constraint` does, or gives `None` and
    /// changes nothing where the world is full.
    pub fn try_add_constraint(&mut self, constraint: Constraint) -> (r: Option<ConstraintKey>)
        ensures
            r.is_some() == (old(self).constraint_ids().len() < ARENA_LIMIT),
            r.is_none() ==> nothing_differs(old(self), final(self)),
            r.is_some() ==> {
                &&& !old(self).constraint_map().dom().contains(r.unwrap()@)
                &&& final(self).constraint_map() == old(self).constraint_map().insert(
                    r.unwrap()@,
                    constraint,
                )
                &&& joined(old(self).constraint_ids(), final(self).constraint_ids(), r.unwrap()@)
                &&& final(self).circle_map() == old(self).circle_map()
                &&& final(self).circle_ids() == old(self).circle_ids()
            },
    {
        if self.constraint_count() < ARENA_LIMIT {
            Some(self.add_constraint(constraint))
        } else {
            None
        }
    }

    /// Stores the constraint under a handle that the world did not hold.
    pub fn add_constraint(&mut self, constraint: Constraint) -> (r: ConstraintKey)
        requires
            old(self).constraint_ids().len() < ARENA_LIMIT,
        ensures
            !old(self).constraint_map().dom().contains(r@),
            final(self).constraint_map() == old(self).constraint_map().insert(r@, constraint),
            joined(old(self).constraint_ids(), final(self).constraint_ids(), r@),
            final(self).circle_map() == old(self).circle_map(),
            final(self).circle_ids() == old(self).circle_ids(),
    {
        let key = constraint_arena_insert(&mut self.constraints, constraint);
        ConstraintKey { key }
    }

    /// The circle under the handle, if the world holds it.
    pub fn circle(&self, key: CircleKey) -> (r: Option<&Circle>)
        ensures
            r.is_some() == self.circle_map().dom().contains(key@),
            r.is_some() ==> *r.unwrap() == self.circle_map()[key@],
    {
        circle_arena_get(&self.circles, key.key)
    }

    /// Takes the circle under the handle out of the world and hands it out,
    /// if the world holds it. The handle is not found afterwards; constraints
    /// that name it stay, and are skipped by the solver.
    pub fn remove_circle(&mut self, key: CircleKey) -> (r: Option<Circle>)
        ensures
            r.is_some() == old(self).circle_map().dom().contains(key@),
            r.is_some() ==> r.unwrap() == old(self).circle_map()[key@],
            final(self).circle_map() == old(self).circle_map().remove(key@),
            r.is_some() ==> joined(final(self).circle_ids(), old(self).circle_ids(), key@),
            r.is_none() ==> final(self).circle_ids() == old(self).circle_ids(),
            final(self).constraint_map() == old(self).constraint_map(),
            final(self).constraint_ids() == old(self).constraint_ids(),
    {
        circle_arena_remove(&mut self.circles, key.key)
    }

    /// Puts the circle at `p`, keeping its velocity and its predicted
    /// position. Fails, changing nothing, where the world does not hold the
    /// handle.
    pub fn move_circle(&mut self, key: CircleKey, p: Vector2) -> (r: Result<(), HandleNotFound>)
        ensures
            r.is_ok() == old(self).circle_map().dom().contains(key@),
            r.is_ok() ==> only_circle_differs(
                old(self),
                final(self),
                key@,
                (Circle { p, ..old(self).circle_map()[key@] }),
            ),
            r.is_err() ==> nothing_differs(old(self), final(self)),
    {
        match circle_arena_get_mut(&mut self.circles, key.key) {
            Some(circle) => {
                circle.p = p;
                Ok(())
            },
            None => Err(HandleNotFound),
        }
    }

    /// Every circle with its handle, in the order of the walk.
    pub fn circles(&self) -> (r: Vec<(CircleKey, Circle)>)
        ensures
            r@.len() == self.circle_ids().len(),
            forall|i: int|
                0 <= i < r@.len() ==> {
                    &&& (#[trigger] r@[i]).0@ == self.circle_ids()[i]
                    &&& self.circle_map().dom().contains(self.circle_ids()[i])
                    &&& r@[i].1 == self.circle_map()[self.circle_ids()[i]]
                },
            forall|i: int, j: int|
                0 <= i < j < r@.len() ==> (#[trigger] r@[i]).0@ != (#[trigger] r@[j]).0@,
            forall|id: u64|
                self.circle_map().dom().contains(id) ==> exists|i: int|
                    0 <= i < r@.len() && (#[trigger] r@[i]).0@ == id,
    {
        let keys = circle_arena_keys(&self.circles);
        let mut out: Vec<(CircleKey, Circle)> = Vec::new();
        let mut i: usize = 0;
        while i < keys.len()
            invariant
                0 <= i <= keys@.len(),
                keys@.len() == self.circle_ids().len(),
                forall|k: int|
                    0 <= k < keys@.len() ==> key_id(#[trigger] keys@[k]) == self.circle_ids()[k],
                forall|k: int|
                    0 <= k < keys@.len() ==> self.circle_map().dom().contains(
                        key_id(#[trigger] keys@[k]),
                    ),
                forall|a: int, b: int|
                    0 <= a < b < keys@.len() ==> key_id(#[trigger] keys@[a]) != key_id(
                        #[trigger] keys@[b],
                    ),
                forall|id: u64|
                    self.circle_map().dom().contains(id) ==> exists|k: int|
                        0 <= k < keys@.len() && key_id(#[trigger] keys@[k]) == id,
                out@.len() == i,
                forall|k: int|
                    0 <= k < i ==> {
                        &&& (#[trigger] out@[k]).0.key == keys@[k]
                        &&& out@[k].1 == self.circle_map()[self.circle_ids()[k]]
                    },
            decreases keys@.len() - i,
        {
            let key: DefaultKey = keys[i];
            let found = circle_arena_get(&self.circles, key);
            assert(self.circle_map().dom().contains(key_id(keys@[i as int])));
            let circle: Circle = *found.unwrap();
            out.push((CircleKey { key }, circle));
            i = i + 1;
        }
        assert forall|id: u64| self.circle_map().dom().contains(id) implies exists|i: int|
            0 <= i < out@.len() && (#[trigger] out@[i]).0@ == id by {
            let k = choose|k: int| 0 <= k < keys@.len() && key_id(#[trigger] keys@[k]) == id;
            assert(out@[k].0@ == id);
        }
        out
    }

    /// Every constraint with its handle, in the order of the walk.
    pub fn constraints(&self) -> (r: Vec<(ConstraintKey, Constraint)>)
        ensures
            r@.len() == self.constraint_ids().len(),
            forall|i: int|
                0 <= i < r@.len() ==> {
                    &&& (#[trigger] r@[i]).0@ == self.constraint_ids()[i]
                    &&& self.constraint_map().dom().contains(self.constraint_ids()[i])
                    &&& r@[i].1 == self.constraint_map()[self.constraint_ids()[i]]
                },
    {
        let keys = constraint_arena_keys(&self.constraints);
        let mut out: Vec<(ConstraintKey, Constraint)> = Vec::new();
        let mut i: usize = 0;
        while i < keys.len()
            invariant
                0 <= i <= keys@.len(),
                keys@.len() == self.constraint_ids().len(),
                forall|k: int|
                    0 <= k < keys@.len() ==> key_id(#[trigger] keys@[k])
                        == self.constraint_ids()[k],
                forall|k: int|
                    0 <= k < keys@.len() ==> self.constraint_map().dom().contains(
                        key_id(#[trigger] keys@[k]),
                    ),
                out@.len() == i,
                forall|k: int|
                    0 <= k < i ==> {
                        &&& (#[trigger] out@[k]).0.key == keys@[k]
                        &&& out@[k].1 == self.constraint_map()[self.constraint_ids()[k]]
                    },
            decreases keys@.len() - i,
        {
            let key: DefaultKey = keys[i];
            let found = constraint_arena_get(&self.constraints, key);
            assert(self.constraint_map().dom().contains(key_id(keys@[i as int])));
            let constraint: Constraint = *found.unwrap();
            out.push((ConstraintKey { key }, constraint));
            i = i + 1;
        }
        out
    }

    /// The two circles that a constraint ties, read as they are now. `None`
    /// where the world no longer holds one of them: such a constraint is
    /// skipped.
    pub fn constraint_ends(&self, constraint: &Constraint) -> (r: Option<(Circle, Circle)>)
        ensures
            r.is_some() == (self.circle_map().dom().contains(constraint.first()@)
                && self.circle_map().dom().contains(constraint.second()@)),
            r.is_some() ==> r.unwrap() == (
                self.circle_map()[constraint.first()@],
                self.circle_map()[constraint.second()@],
            ),
    {
        match constraint {
            Constraint::CircleDistance(k1, k2, _) => {
                match circle_arena_get(&self.circles, k1.key) {
                    Some(a) => match circle_arena_get(&self.circles, k2.key) {
                        Some(b) => Some((*a, *b)),
                        None => None,
                    },
                    None => None,
                }
            },
        }
    }

    /// The pairs of circles that a tick tests for contact: every ordered pair
    /// of two different circles, by the order of the walk. Each unordered
    /// pair is therefore tested twice, once with either circle as the one
    /// that moves.
    pub fn collision_pairs(&self) -> (r: Vec<(CircleKey, CircleKey)>)
        ensures
            pair_ids(r@) == ordered_pairs(self.circle_ids()),
            forall|k: int|
                0 <= k < r@.len() ==> {
                    &&& (#[trigger] r@[k]).0@ != r@[k].1@
                    &&& self.circle_map().dom().contains(r@[k].0@)
                    &&& self.circle_map().dom().contains(r@[k].1@)
                },
    {
        let keys = circle_arena_keys(&self.circles);
        let n: usize = keys.len();
        let ghost ids = self.circle_ids();
        let mut out: Vec<(CircleKey, CircleKey)> = Vec::new();
        let mut i: usize = 0;
        while i < n
            invariant
                0 <= i <= n,
                n == keys@.len(),
                n == ids.len(),
                ids == self.circle_ids(),
                forall|k: int| 0 <= k < n ==> key_id(#[trigger] keys@[k]) == ids[k],
                forall|k: int|
                    0 <= k < n ==> self.circle_map().dom().contains(key_id(#[trigger] keys@[k])),
                forall|a: int, b: int|
                    0 <= a < b < n ==> key_id(#[trigger] keys@[a]) != key_id(#[trigger] keys@[b]),
                pair_ids(out@) =~= rows_pairs(ids, i as int),
                forall|k: int|
                    0 <= k < out@.len() ==> {
                        &&& (#[trigger] out@[k]).0@ != out@[k].1@
                        &&& self.circle_map().dom().contains(out@[k].0@)
                        &&& self.circle_map().dom().contains(out@[k].1@)
                    },
            decreases n - i,
        {
            let mut j: usize = 0;
            while j < n
                invariant
                    0 <= i < n,
                    0 <= j <= n,
                    n == keys@.len(),
                    n == ids.len(),
                    forall|k: int| 0 <= k < n ==> key_id(#[trigger] keys@[k]) == ids[k],
                    forall|k: int|
                        0 <= k < n ==> self.circle_map().dom().contains(
                            key_id(#[trigger] keys@[k]),
                        ),
                    forall|a: int, b: int|
                        0 <= a < b < n ==> key_id(#[trigger] keys@[a]) != key_id(
                            #[trigger] keys@[b],
                        ),
                    pair_ids(out@) =~= rows_pairs(ids, i as int) + row_pairs(
                        ids,
                        i as int,
                        j as int,
                    ),
                    forall|k: int|
                        0 <= k < out@.len() ==> {
                            &&& (#[trigger] out@[k]).0@ != out@[k].1@
                            &&& self.circle_map().dom().contains(out@[k].0@)
                            &&& self.circle_map().dom().contains(out@[k].1@)
                        },
                decreases n - j,
            {
                if j != i {
                    let first = CircleKey { key: keys[i] };
                    let second = CircleKey { key: keys[j] };
                    assert(first@ == ids[i as int] && second@ == ids[j as int]);
                    assert(first@ != second@);
                    let ghost before = out@;
                    out.push((first, second));
                    assert(pair_ids(out@) =~= pair_ids(before).push((first@, second@)));
                }
                j = j + 1;
            }
            i = i + 1;
        }
        out
    }

    /// Sets the velocity and the predicted position of a circle, as the
    /// first step of a tick does. Fails, changing nothing, where the world
    /// does not hold the handle.
    pub fn predict(&mut self, key: CircleKey, v: Vector2, future_p: Vector2) -> (r: Result<
        (),
        HandleNotFound,
    >)
        ensures
            r.is_ok() == old(self).circle_map().dom().contains(key@),
            r.is_ok() ==> only_circle_differs(
                old(self),
                final(self),
                key@,
                (Circle { v, future_p, ..old(self).circle_map()[key@] }),
            ),
            r.is_err() ==> nothing_differs(old(self), final(self)),
    {
        match circle_arena_get_mut(&mut self.circles, key.key) {
            Some(circle) => {
                circle.v = v;
                circle.future_p = future_p;
                Ok(())
            },
            None => Err(HandleNotFound),
        }
    }

    /// Moves the predicted position of a circle, as the solver does. A
    /// circle whose inverse mass is not above zero is immovable: it is left
    /// as it is, and the result is `Ok(false)`. Fails, changing nothing,
    /// where the world does not hold the handle.
    pub fn correct(&mut self, key: CircleKey, future_p: Vector2) -> (r: Result<
        bool,
        HandleNotFound,
    >)
        ensures
            r.is_ok() == old(self).circle_map().dom().contains(key@),
            r.is_ok() ==> r.unwrap() == old(self).circle_map()[key@].movable(),
            r == Ok::<bool, HandleNotFound>(true) ==> only_circle_differs(
                old(self),
                final(self),
                key@,
                (Circle { future_p, ..old(self).circle_map()[key@] }),
            ),
            r != Ok::<bool, HandleNotFound>(true) ==> nothing_differs(old(self), final(self)),
    {
        let r = match circle_arena_get_mut(&mut self.circles, key.key) {
            Some(circle) => {
                if circle.is_movable() {
                    circle.future_p = future_p;
                    Ok(true)
                } else {
                    Ok(false)
                }
            },
            None => Err(HandleNotFound),
        };
        assert(r != Ok::<bool, HandleNotFound>(true) ==> self.circle_map() =~= old(
            self,
        ).circle_map());
        r
    }

    /// Ends a tick for one circle: the predicted position becomes the
    /// position, and the velocity becomes `v` where one is given. With `None`
    /// the velocity stays, which is the case of a tick of no duration. Fails,
    /// changing nothing, where the world does not hold the handle.
    pub fn commit(&mut self, key: CircleKey, v: Option<Vector2>) -> (r: Result<(), HandleNotFound>)
        ensures
            r.is_ok() == old(self).circle_map().dom().contains(key@),
            r.is_ok() ==> only_circle_differs(
                old(self),
                final(self),
                key@,
                committed(old(self).circle_map()[key@], v),
            ),
            r.is_err() ==> nothing_differs(old(self), final(self)),
    {
        match circle_arena_get_mut(&mut self.circles, key.key) {
            Some(circle) => {
                circle.p = circle.future_p;
                match v {
                    Some(velocity) => {
                        circle.v = velocity;
                    },
                    None => {},
                }
                Ok(())
            },
            None => Err(HandleNotFound),
        }
    }
}

/// A circle after the end of a tick.
pub open spec fn committed(circle: Circle, v: Option<Vector2>) -> Circle {
    Circle {
        p: circle.future_p,
        v: match v {
            Some(velocity) => velocity,
            None => circle.v,
        },
        ..circle
    }
}

/// The numbers of the handles in a list of pairs.
pub open spec fn pair_ids(pairs: Seq<(CircleKey, CircleKey)>) -> Seq<(u64, u64)> {
    Seq::new(pairs.len(), |k: int| (pairs[k].0@, pairs[k].1@))
}

/// The pairs of `ids[i]` with each of the first `j` of `ids` but itself.
pub open spec fn row_pairs(ids: Seq<u64>, i: int, j: int) -> Seq<(u64, u64)>
    decreases j,
{
    if j <= 0 {
        Seq::empty()
    } else if j - 1 == i {
        row_pairs(ids, i, j - 1)
    } else {
        row_pairs(ids, i, j - 1).push((ids[i], ids[j - 1]))
    }
}

/// The rows of the first `i` of `ids`, one after the other.
pub open spec fn rows_pairs(ids: Seq<u64>, i: int) -> Seq<(u64, u64)>
    decreases i,
{
    if i <= 0 {
        Seq::empty()
    } else {
        rows_pairs(ids, i - 1) + row_pairs(ids, i - 1, ids.len() as int)
    }
}

/// Every ordered pair of two different places of `ids`, the first place
/// running slowest.
pub open spec fn ordered_pairs(ids: Seq<u64>) -> Seq<(u64, u64)> {
    rows_pairs(ids, ids.len() as int)
}

/// A row over the first `j` places has one pair for each of them but `i`.
pub proof fn row_pairs_len(ids: Seq<u64>, i: int, j: int)
    requires
        0 <= j,
    ensures
        row_pairs(ids, i, j).len() == if 0 <= i < j {
            j - 1
        } else {
            j
        },
    decreases j,
{
    if j > 0 {
        row_pairs_len(ids, i, j - 1);
    }
}

/// The first `i` rows of `n` places hold `i * (n - 1)` pairs.
pub proof fn rows_pairs_len(ids: Seq<u64>, i: int)
    requires
        0 <= i <= ids.len(),
    ensures
        rows_pairs(ids, i).len() == i * (ids.len() - 1),
    decreases i,
{
    let m: int = ids.len() - 1;
    if i > 0 {
        rows_pairs_len(ids, i - 1);
        row_pairs_len(ids, i - 1, ids.len() as int);
        assert((i - 1) * m + m == i * m) by (nonlinear_arith);
    } else {
        assert(i * m == 0) by (nonlinear_arith)
            requires
                i == 0,
        ;
    }
}

/// Among `n` circles a tick tests `n * (n - 1)` pairs: two for every two
/// circles, none of a circle with itself.
pub proof fn ordered_pairs_len(ids: Seq<u64>)
    ensures
        ordered_pairs(ids).len() == ids.len() * (ids.len() - 1),
{
    rows_pairs_len(ids, ids.len() as int);
}

} // verus!
