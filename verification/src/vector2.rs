//! A vector of two scalars.

use vstd::prelude::*;
use crate::scalar::{is_nan_bits, negated_bits, order_key, NotANumber, Scalar, ONE_BITS};

verus! {

/// A point or a displacement in the plane.
#[derive(Clone, Copy, Debug)]
pub struct Vector2 {
    pub x: Scalar,
    pub y: Scalar,
}

impl Vector2 {
    /// The vector `(0, 0)`.
    pub fn zero() -> (r: Vector2)
        ensures
            r.x@ == 0,
            r.y@ == 0,
    {
        Vector2 { x: Scalar::zero(), y: Scalar::zero() }
    }

    /// The vector `(1, 1)`.
    pub fn one() -> (r: Vector2)
        ensures
            r.x@ == ONE_BITS,
            r.y@ == ONE_BITS,
    {
        Vector2 { x: Scalar::one(), y: Scalar::one() }
    }

    /// The vector with the given components.
    pub fn new(x: Scalar, y: Scalar) -> (r: Vector2)
        ensures
            r.x == x,
            r.y == y,
    {
        Vector2 { x, y }
    }

    /// The vector whose components have the given patterns, or `NotANumber`
    /// when either pattern is that of a NaN.
    pub fn new_prim(x_prim: u64, y_prim: u64) -> (r: Result<Vector2, NotANumber>)
        ensures
            r.is_ok() <==> !is_nan_bits(x_prim) && !is_nan_bits(y_prim),
            r.is_ok() ==> r.unwrap().x@ == x_prim && r.unwrap().y@ == y_prim,
    {
        match Scalar::from_bits(x_prim) {
            Ok(x) => match Scalar::from_bits(y_prim) {
                Ok(y) => Ok(Vector2 { x, y }),
                Err(e) => Err(e),
            },
            Err(e) => Err(e),
        }
    }

    /// The first component.
    pub fn x(self) -> (r: Scalar)
        ensures
            r == self.x,
    {
        self.x
    }

    /// The second component.
    pub fn y(self) -> (r: Scalar)
        ensures
            r == self.y,
    {
        self.y
    }

    /// The vector that points the opposite way.
    pub open spec fn negated(self) -> Vector2 {
        Vector2 { x: self.x.negated(), y: self.y.negated() }
    }

    /// The vector that points the opposite way.
    pub fn neg(self) -> (r: Vector2)
        ensures
            r == self.negated(),
            r.x@ == negated_bits(self.x@),
            r.y@ == negated_bits(self.y@),
    {
        Vector2 { x: self.x.neg(), y: self.y.neg() }
    }

    /// Whether the two vectors stand for the same point: each component is
    /// the same number, the two zeros being equal.
    pub fn same(self, other: Vector2) -> (r: bool)
        ensures
            r == (order_key(self.x@) == order_key(other.x@) && order_key(self.y@) == order_key(
                other.y@,
            )),
    {
        self.x.same(other.x) && self.y.same(other.y)
    }
}

} // verus!
