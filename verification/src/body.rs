use vstd::prelude::*;
use crate::error::SimError;
use crate::vector::lemma_view_injective;
use crate::vector::Point;
use crate::vector::Vec2;
use crate::vector::LIMIT;

verus! {

/// A display colour: red, green, blue and opacity.
#[derive(Clone, Copy, Debug, PartialEq, Eq, Structural)]
pub struct Rgba {
    pub r: u8,
    pub g: u8,
    pub b: u8,
    pub a: u8,
}

/// The kinematic state of a point mass over the mathematical integers: what
/// a `Body` stands for.
pub struct BodyState {
    pub position: Point,
    pub velocity: Point,
    pub acceleration: Point,
    pub radius: nat,
    pub color: Rgba,
}

impl BodyState {
    /// A body at rest at `position`.
    pub open spec fn at_rest(position: Point, radius: nat, color: Rgba) -> BodyState {
        BodyState {
            position,
            velocity: Point::origin(),
            acceleration: Point::origin(),
            radius,
            color,
        }
    }

    /// One time step: the acceleration is added to the velocity, then the
    /// new velocity to the position. Each is applied exactly once.
    pub open spec fn advance(self) -> BodyState {
        BodyState {
            velocity: self.velocity.plus(self.acceleration),
            position: self.position.plus(self.velocity.plus(self.acceleration)),
            ..self
        }
    }

    pub open spec fn with_position(self, position: Point) -> BodyState {
        BodyState { position, ..self }
    }

    pub open spec fn with_velocity(self, velocity: Point) -> BodyState {
        BodyState { velocity, ..self }
    }

    pub open spec fn with_acceleration(self, acceleration: Point) -> BodyState {
        BodyState { acceleration, ..self }
    }

    /// Position, velocity and acceleration are all finite.
    pub open spec fn is_finite(self) -> bool {
        self.position.is_finite() && self.velocity.is_finite() && self.acceleration.is_finite()
    }
}

/// A simulated point mass: position, velocity and acceleration in simulation
/// units per step, and what is needed to draw it.
#[derive(Clone, Copy, Debug, PartialEq, Eq, Structural)]
pub struct Body {
    position: Vec2,
    velocity: Vec2,
    acceleration: Vec2,
    radius: u64,
    color: Rgba,
}

impl View for Body {
    type V = BodyState;

    closed spec fn view(&self) -> BodyState {
        BodyState {
            position: self.position@,
            velocity: self.velocity@,
            acceleration: self.acceleration@,
            radius: self.radius as nat,
            color: self.color,
        }
    }
}

impl Body {
    /// A body at rest at `(x, y)`, refused when the position is not finite.
    pub fn new(x: i64, y: i64, radius: u64, color: Rgba) -> (r: Result<Body, SimError>)
        ensures
            (Point { x: x as int, y: y as int }).is_finite() ==> r is Ok && r->Ok_0@ == BodyState::at_rest(
                Point { x: x as int, y: y as int },
                radius as nat,
                color,
            ),
            !(Point { x: x as int, y: y as int }).is_finite() ==> r == Err::<Body, SimError>(
                SimError::NonFinite,
            ),
    {
        match Vec2::new(x, y) {
            Ok(position) => {
                let rest = Vec2::zero();
                proof {
                    use_type_invariant(&position);
                }
                Ok(Body { position, velocity: rest, acceleration: rest, radius, color })
            },
            Err(e) => Err(e),
        }
    }

    #[verifier::type_invariant]
    pub open spec fn inv(&self) -> bool {
        self@.is_finite() && self@.radius <= u64::MAX
    }

    pub fn position(&self) -> (r: Vec2)
        ensures
            r@ == self@.position,
    {
        self.position
    }

    pub fn velocity(&self) -> (r: Vec2)
        ensures
            r@ == self@.velocity,
    {
        self.velocity
    }

    pub fn acceleration(&self) -> (r: Vec2)
        ensures
            r@ == self@.acceleration,
    {
        self.acceleration
    }

    /// The radius on screen, in pixels.
    pub fn radius(&self) -> (r: u64)
        ensures
            r == self@.radius,
    {
        self.radius
    }

    pub fn color(&self) -> (r: Rgba)
        ensures
            r == self@.color,
    {
        self.color
    }

    /// Advances the body by one step: velocity takes up the acceleration,
    /// then position takes up the new velocity. Refused, with the body left
    /// as it was, when the new state would not be finite.
    pub fn advance(&mut self) -> (r: Result<(), SimError>)
        ensures
            old(self)@.advance().is_finite() ==> r is Ok && final(self)@ == old(self)@.advance(),
            !old(self)@.advance().is_finite() ==> r == Err::<(), SimError>(SimError::NonFinite)
                && *final(self) == *old(self),
    {
        proof {
            use_type_invariant(&*self);
        }
        match self.velocity.checked_add(self.acceleration) {
            Ok(velocity) => match self.position.checked_add(velocity) {
                Ok(position) => {
                    proof {
                        use_type_invariant(&velocity);
                        use_type_invariant(&position);
                    }
                    self.velocity = velocity;
                    self.position = position;
                    Ok(())
                },
                Err(e) => Err(e),
            },
            Err(e) => Err(e),
        }
    }

    /// Moves the body by `(dx, dy)`. Refused, with the body left as it was,
    /// when the new position is not finite.
    pub fn accumulate_position(&mut self, dx: i64, dy: i64) -> (r: Result<(), SimError>)
        ensures
            ({
                let target = old(self)@.position.plus(Point { x: dx as int, y: dy as int });
                &&& target.is_finite() ==> r is Ok && final(self)@ == old(self)@.with_position(target)
                &&& !target.is_finite() ==> r == Err::<(), SimError>(SimError::NonFinite) && *final(self)
                    == *old(self)
            }),
    {
        proof {
            use_type_invariant(&*self);
        }
        match shifted(self.position, dx, dy) {
            Ok(position) => {
                proof {
                    use_type_invariant(&position);
                }
                self.position = position;
                Ok(())
            },
            Err(e) => Err(e),
        }
    }

    /// Adds `(dx, dy)` to the velocity. Refused, with the body left as it
    /// was, when the new velocity is not finite.
    pub fn accumulate_velocity(&mut self, dx: i64, dy: i64) -> (r: Result<(), SimError>)
        ensures
            ({
                let target = old(self)@.velocity.plus(Point { x: dx as int, y: dy as int });
                &&& target.is_finite() ==> r is Ok && final(self)@ == old(self)@.with_velocity(target)
                &&& !target.is_finite() ==> r == Err::<(), SimError>(SimError::NonFinite) && *final(self)
                    == *old(self)
            }),
    {
        proof {
            use_type_invariant(&*self);
        }
        match shifted(self.velocity, dx, dy) {
            Ok(velocity) => {
                proof {
                    use_type_invariant(&velocity);
                }
                self.velocity = velocity;
                Ok(())
            },
            Err(e) => Err(e),
        }
    }

    /// Adds `(dx, dy)` to the acceleration. Refused, with the body left as
    /// it was, when the new acceleration is not finite.
    pub fn accumulate_acceleration(&mut self, dx: i64, dy: i64) -> (r: Result<(), SimError>)
        ensures
            ({
                let target = old(self)@.acceleration.plus(Point { x: dx as int, y: dy as int });
                &&& target.is_finite() ==> r is Ok && final(self)@ == old(self)@.with_acceleration(target)
                &&& !target.is_finite() ==> r == Err::<(), SimError>(SimError::NonFinite) && *final(self)
                    == *old(self)
            }),
    {
        proof {
            use_type_invariant(&*self);
        }
        match shifted(self.acceleration, dx, dy) {
            Ok(acceleration) => {
                proof {
                    use_type_invariant(&acceleration);
                }
                self.acceleration = acceleration;
                Ok(())
            },
            Err(e) => Err(e),
        }
    }

    /// Replaces the acceleration by `(x, y)`. Refused, with the body left as
    /// it was, when `(x, y)` is not finite.
    pub fn set_acceleration(&mut self, x: i64, y: i64) -> (r: Result<(), SimError>)
        ensures
            ({
                let target = Point { x: x as int, y: y as int };
                &&& target.is_finite() ==> r is Ok && final(self)@ == old(self)@.with_acceleration(target)
                &&& !target.is_finite() ==> r == Err::<(), SimError>(SimError::NonFinite) && *final(self)
                    == *old(self)
            }),
    {
        proof {
            use_type_invariant(&*self);
        }
        match Vec2::new(x, y) {
            Ok(acceleration) => {
                proof {
                    use_type_invariant(&acceleration);
                }
                self.acceleration = acceleration;
                Ok(())
            },
            Err(e) => Err(e),
        }
    }
}

/// Two bodies that stand for the same state are the same body.
pub proof fn lemma_body_view_injective(a: Body, b: Body)
    requires
        a@ == b@,
    ensures
        a == b,
{
    lemma_view_injective(a.position, b.position);
    lemma_view_injective(a.velocity, b.velocity);
    lemma_view_injective(a.acceleration, b.acceleration);
}

/// `base` moved by `(dx, dy)`, refused when the result is not finite.
fn shifted(base: Vec2, dx: i64, dy: i64) -> (r: Result<Vec2, SimError>)
    ensures
        ({
            let target = base@.plus(Point { x: dx as int, y: dy as int });
            &&& target.is_finite() ==> r is Ok && r->Ok_0@ == target
            &&& !target.is_finite() ==> r == Err::<Vec2, SimError>(SimError::NonFinite)
        }),
{
    let x: i128 = base.x() as i128 + dx as i128;
    let y: i128 = base.y() as i128 + dy as i128;
    let limit: i128 = LIMIT as i128;
    if -limit <= x && x <= limit && -limit <= y && y <= limit {
        Vec2::new(x as i64, y as i64)
    } else {
        Err(SimError::NonFinite)
    }
}

} // verus!
