use vstd::prelude::*;
use crate::error::SimError;

verus! {

/// The largest magnitude that a coordinate may have and still be finite.
///
/// Twice this bound still fits an `i64`, so the sum or the difference of two
/// finite coordinates can always be formed before it is tested.
pub const LIMIT: i64 = 1_000_000_000_000_000_000;

/// Whether a whole number lies in the finite range.
pub open spec fn finite(v: int) -> bool {
    -LIMIT <= v <= LIMIT
}

/// A vector of the plane over the mathematical integers: what a `Vec2` stands for.
pub struct Point {
    pub x: int,
    pub y: int,
}

impl Point {
    pub open spec fn origin() -> Point {
        Point { x: 0, y: 0 }
    }

    pub open spec fn plus(self, other: Point) -> Point {
        Point { x: self.x + other.x, y: self.y + other.y }
    }

    pub open spec fn minus(self, other: Point) -> Point {
        Point { x: self.x - other.x, y: self.y - other.y }
    }

    pub open spec fn negated(self) -> Point {
        Point { x: -self.x, y: -self.y }
    }

    /// The square of the Euclidean length.
    pub open spec fn norm_squared(self) -> nat {
        (self.x * self.x + self.y * self.y) as nat
    }

    /// Both coordinates lie in the finite range.
    pub open spec fn is_finite(self) -> bool {
        finite(self.x) && finite(self.y)
    }
}

/// A finite vector of the plane in simulation units.
///
/// No value of this type has a coordinate outside `-LIMIT ..= LIMIT`.
#[derive(Clone, Copy, Debug, PartialEq, Eq, Structural)]
pub struct Vec2 {
    x: i64,
    y: i64,
}

impl View for Vec2 {
    type V = Point;

    closed spec fn view(&self) -> Point {
        Point { x: self.x as int, y: self.y as int }
    }
}

impl Vec2 {
    #[verifier::type_invariant]
    pub open spec fn inv(&self) -> bool {
        self@.is_finite()
    }

    /// The vector `(x, y)`, refused when a coordinate is not finite.
    pub fn new(x: i64, y: i64) -> (r: Result<Vec2, SimError>)
        ensures
            finite(x as int) && finite(y as int) ==> r is Ok && r->Ok_0@ == (Point { x: x as int, y: y as int }),
            !(finite(x as int) && finite(y as int)) ==> r == Err::<Vec2, SimError>(SimError::NonFinite),
    {
        if -LIMIT <= x && x <= LIMIT && -LIMIT <= y && y <= LIMIT {
            Ok(Vec2 { x, y })
        } else {
            Err(SimError::NonFinite)
        }
    }

    /// The zero vector.
    pub fn zero() -> (r: Vec2)
        ensures
            r@ == Point::origin(),
    {
        Vec2 { x: 0, y: 0 }
    }

    pub fn x(&self) -> (r: i64)
        ensures
            r == self@.x,
            finite(r as int),
    {
        proof {
            use_type_invariant(self);
        }
        self.x
    }

    pub fn y(&self) -> (r: i64)
        ensures
            r == self@.y,
            finite(r as int),
    {
        proof {
            use_type_invariant(self);
        }
        self.y
    }

    /// The sum of two vectors, refused when it is not finite.
    pub fn checked_add(self, other: Vec2) -> (r: Result<Vec2, SimError>)
        ensures
            self@.plus(other@).is_finite() ==> r is Ok && r->Ok_0@ == self@.plus(other@),
            !self@.plus(other@).is_finite() ==> r == Err::<Vec2, SimError>(SimError::NonFinite),
    {
        proof {
            use_type_invariant(&self);
            use_type_invariant(&other);
        }
        Vec2::new(self.x + other.x, self.y + other.y)
    }
}

/// Two vectors that stand for the same point are the same vector.
pub proof fn lemma_view_injective(a: Vec2, b: Vec2)
    requires
        a@ == b@,
    ensures
        a == b,
{
}

} // verus!
