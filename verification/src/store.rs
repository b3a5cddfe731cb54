//! The arenas behind the world: hop slot maps of the `slotmap` crate, with
//! the contracts under which the verified code calls them. An arena is
//! described by two things: the values it holds, by the number of their key,
//! and the order in which it is walked.

use vstd::prelude::*;
use slotmap::{DefaultKey, HopSlotMap, Key};
use crate::world::{Circle, Constraint};

verus! {

/// `slotmap::DefaultKey`, a key of a slot map. Verus sees nothing inside
/// it; `key_id` tells its number.
#[verifier::external_type_specification]
#[verifier::external_body]
pub struct ExDefaultKey(DefaultKey);

/// A `slotmap::HopSlotMap` of circles. Verus sees nothing inside it: what it
/// holds is told by `circle_contents` and `circle_order`.
#[verifier::external_body]
pub struct CircleArena {
    inner: HopSlotMap<DefaultKey, Circle>,
}

/// A `slotmap::HopSlotMap` of constraints, told by `constraint_contents` and
/// `constraint_order`.
#[verifier::external_body]
pub struct ConstraintArena {
    inner: HopSlotMap<DefaultKey, Constraint>,
}

/// The largest number of values that an arena takes.
pub const ARENA_LIMIT: usize = 0xFFFF_FFFE;

/// The walk `after` is the walk `before` with `id` put in at some place:
/// what was there keeps its order.
pub open spec fn joined(before: Seq<u64>, after: Seq<u64>, id: u64) -> bool {
    exists|i: int| 0 <= i <= before.len() && after == #[trigger] before.insert(i, id)
}

/// The 64-bit number of a key: its slot index and its generation.
pub uninterp spec fn key_id(key: DefaultKey) -> u64;

/// The circles that an arena holds, by the number of their key.
pub uninterp spec fn circle_contents(arena: CircleArena) -> Map<u64, Circle>;

/// The numbers of the keys of an arena of circles, in the order in which it
/// is walked.
pub uninterp spec fn circle_order(arena: CircleArena) -> Seq<u64>;

/// The constraints that an arena holds, by the number of their key.
pub uninterp spec fn constraint_contents(arena: ConstraintArena) -> Map<
    u64,
    Constraint,
>;

/// The numbers of the keys of an arena of constraints, in the order in which
/// it is walked.
pub uninterp spec fn constraint_order(arena: ConstraintArena) -> Seq<u64>;

/// `slotmap::KeyData::as_ffi` on the key's data: the number of the key.
#[verifier::external_body]
pub(crate) fn key_number(key: DefaultKey) -> (r: u64)
    ensures
        r == key_id(key),
{
    key.data().as_ffi()
}

/// `slotmap::HopSlotMap::with_key`: an arena that holds nothing.
#[verifier::external_body]
pub(crate) fn circle_arena_new() -> (r: CircleArena)
    ensures
        circle_contents(r).dom() == Set::<u64>::empty(),
        circle_order(r).len() == 0,
{
    CircleArena { inner: HopSlotMap::with_key() }
}

/// `slotmap::HopSlotMap::len`: the number of values held, which is the
/// length of the walk.
#[verifier::external_body]
pub(crate) fn circle_arena_len(arena: &CircleArena) -> (r: usize)
    ensures
        r == circle_order(*arena).len(),
{
    arena.inner.len()
}

/// `slotmap::HopSlotMap::insert`: the value is stored under a key that the
/// arena did not hold, and every other value stays where it was in the
/// walk. The crate panics at `ARENA_LIMIT` values, which `requires` leaves
/// out.
#[verifier::external_body]
pub(crate) fn circle_arena_insert(arena: &mut CircleArena, circle: Circle) -> (r:
    DefaultKey)
    requires
        circle_order(*old(arena)).len() < ARENA_LIMIT,
    ensures
        !circle_contents(*old(arena)).dom().contains(key_id(r)),
        circle_contents(*final(arena)) == circle_contents(*old(arena)).insert(key_id(r), circle),
        joined(circle_order(*old(arena)), circle_order(*final(arena)), key_id(r)),
{
    arena.inner.insert(circle)
}

/// `slotmap::HopSlotMap::get`: the value under the key, if the arena holds
/// the key.
#[verifier::external_body]
pub(crate) fn circle_arena_get(arena: &CircleArena, key: DefaultKey) -> (r:
    Option<&Circle>)
    ensures
        r.is_some() == circle_contents(*arena).dom().contains(key_id(key)),
        r.is_some() ==> *r.unwrap() == circle_contents(*arena)[key_id(key)],
{
    arena.inner.get(key)
}

/// `slotmap::HopSlotMap::get_mut`: a reference to the value under the key,
/// if the arena holds the key. What is written through the reference is what
/// the arena holds under the key afterwards; nothing else changes.
#[verifier::external_body]
pub(crate) fn circle_arena_get_mut(arena: &mut CircleArena, key: DefaultKey) -> (r: Option<
    &mut Circle,
>)
    ensures
        r.is_some() == circle_contents(*old(arena)).dom().contains(key_id(key)),
        r.is_some() ==> *r.unwrap() == circle_contents(*old(arena))[key_id(key)],
        r.is_some() ==> circle_contents(*final(arena)) == circle_contents(*old(arena)).insert(
            key_id(key),
            *final(r.unwrap()),
        ),
        r.is_none() ==> circle_contents(*final(arena)) == circle_contents(*old(arena)),
        circle_order(*final(arena)) == circle_order(*old(arena)),
{
    arena.inner.get_mut(key)
}

/// `slotmap::HopSlotMap::remove`: the value under the key leaves the arena
/// and is handed out, if the arena holds the key; the other values keep
/// their keys and their order.
#[verifier::external_body]
pub(crate) fn circle_arena_remove(arena: &mut CircleArena, key: DefaultKey) -> (r: Option<Circle>)
    ensures
        r.is_some() == circle_contents(*old(arena)).dom().contains(key_id(key)),
        r.is_some() ==> r.unwrap() == circle_contents(*old(arena))[key_id(key)],
        circle_contents(*final(arena)) == circle_contents(*old(arena)).remove(key_id(key)),
        r.is_some() ==> joined(
            circle_order(*final(arena)),
            circle_order(*old(arena)),
            key_id(key),
        ),
        r.is_none() ==> circle_order(*final(arena)) == circle_order(*old(arena)),
{
    arena.inner.remove(key)
}

/// `slotmap::HopSlotMap::keys`, collected: the keys in the order of the
/// walk, which are those of the values held, each once.
#[verifier::external_body]
pub(crate) fn circle_arena_keys(arena: &CircleArena) -> (r: Vec<DefaultKey>)
    ensures
        r@.len() == circle_order(*arena).len(),
        forall|i: int| 0 <= i < r@.len() ==> key_id(#[trigger] r@[i]) == circle_order(*arena)[i],
        forall|i: int, j: int|
            0 <= i < j < r@.len() ==> key_id(#[trigger] r@[i]) != key_id(#[trigger] r@[j]),
        forall|i: int|
            0 <= i < r@.len() ==> circle_contents(*arena).dom().contains(key_id(#[trigger] r@[i])),
        forall|id: u64|
            circle_contents(*arena).dom().contains(id) ==> exists|i: int|
                0 <= i < r@.len() && key_id(#[trigger] r@[i]) == id,
{
    arena.inner.keys().collect()
}

/// `slotmap::HopSlotMap::with_key`: an arena that holds nothing.
#[verifier::external_body]
pub(crate) fn constraint_arena_new() -> (r: ConstraintArena)
    ensures
        constraint_contents(r).dom() == Set::<u64>::empty(),
        constraint_order(r).len() == 0,
{
    ConstraintArena { inner: HopSlotMap::with_key() }
}

/// `slotmap::HopSlotMap::len`, as for circles.
#[verifier::external_body]
pub(crate) fn constraint_arena_len(arena: &ConstraintArena) -> (r: usize)
    ensures
        r == constraint_order(*arena).len(),
{
    arena.inner.len()
}

/// `slotmap::HopSlotMap::insert`, as for circles.
#[verifier::external_body]
pub(crate) fn constraint_arena_insert(
    arena: &mut ConstraintArena,
    constraint: Constraint,
) -> (r: DefaultKey)
    requires
        constraint_order(*old(arena)).len() < ARENA_LIMIT,
    ensures
        !constraint_contents(*old(arena)).dom().contains(key_id(r)),
        constraint_contents(*final(arena)) == constraint_contents(*old(arena)).insert(
            key_id(r),
            constraint,
        ),
        joined(constraint_order(*old(arena)), constraint_order(*final(arena)), key_id(r)),
{
    arena.inner.insert(constraint)
}

/// `slotmap::HopSlotMap::get`, as for circles.
#[verifier::external_body]
pub(crate) fn constraint_arena_get(
    arena: &ConstraintArena,
    key: DefaultKey,
) -> (r: Option<&Constraint>)
    ensures
        r.is_some() == constraint_contents(*arena).dom().contains(key_id(key)),
        r.is_some() ==> *r.unwrap() == constraint_contents(*arena)[key_id(key)],
{
    arena.inner.get(key)
}

/// `slotmap::HopSlotMap::keys`, collected, as for circles.
#[verifier::external_body]
pub(crate) fn constraint_arena_keys(arena: &ConstraintArena) -> (r: Vec<
    DefaultKey,
>)
    ensures
        r@.len() == constraint_order(*arena).len(),
        forall|i: int|
            0 <= i < r@.len() ==> key_id(#[trigger] r@[i]) == constraint_order(*arena)[i],
        forall|i: int, j: int|
            0 <= i < j < r@.len() ==> key_id(#[trigger] r@[i]) != key_id(#[trigger] r@[j]),
        forall|i: int|
            0 <= i < r@.len() ==> constraint_contents(*arena).dom().contains(
                key_id(#[trigger] r@[i]),
            ),
{
    arena.inner.keys().collect()
}

} // verus!
