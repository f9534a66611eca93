use vstd::prelude::*;
use crate::body::lemma_body_view_injective;
use crate::body::Body;
use crate::body::BodyState;
use crate::body::Rgba;
use crate::error::SimError;
use crate::units::pixel_of;
use crate::units::Scale;
use crate::vector::Point;

verus! {

/// A body with its physical constants over the mathematical integers: what
/// a `PhysicalBody` stands for.
pub struct PhysicalState {
    pub mass: nat,
    pub radius: nat,
    pub body: BodyState,
}

impl PhysicalState {
    /// Mass and radius are positive.
    pub open spec fn valid(self) -> bool {
        self.mass >= 1 && self.radius >= 1
    }

    pub open spec fn with_body(self, body: BodyState) -> PhysicalState {
        PhysicalState { body, ..self }
    }

    /// Whether `sprite` is the picture of this body when a pixel spans
    /// `units_per_pixel` simulation units: the pixel that holds its centre,
    /// its radius on screen and its colour.
    pub open spec fn drawn_as(self, units_per_pixel: nat, sprite: Sprite) -> bool {
        &&& sprite.x == pixel_of(units_per_pixel, self.body.position.x)
        &&& sprite.y == pixel_of(units_per_pixel, self.body.position.y)
        &&& sprite.radius == self.body.radius
        &&& sprite.color == self.body.color
    }
}

/// What the drawing surface is handed for one body: the pixel of its centre,
/// its radius in pixels and its colour.
#[derive(Clone, Copy, Debug, PartialEq, Eq, Structural)]
pub struct Sprite {
    pub x: i64,
    pub y: i64,
    pub radius: u64,
    pub color: Rgba,
}

/// A body together with the constants that the law of gravitation reads:
/// its mass and its true radius, both in simulation units and both fixed
/// once the body is made.
#[derive(Clone, Copy, Debug, PartialEq, Eq, Structural)]
pub struct PhysicalBody {
    mass: u64,
    radius: u64,
    body: Body,
}

impl View for PhysicalBody {
    type V = PhysicalState;

    closed spec fn view(&self) -> PhysicalState {
        PhysicalState { mass: self.mass as nat, radius: self.radius as nat, body: self.body@ }
    }
}

impl PhysicalBody {
    #[verifier::type_invariant]
    pub open spec fn inv(&self) -> bool {
        &&& self@.valid()
        &&& self@.mass <= i64::MAX
        &&& self@.radius <= i64::MAX
        &&& self@.body.is_finite()
        &&& self@.body.radius <= u64::MAX
    }

    /// Gives `body` a mass and a true radius. A mass that is not positive is
    /// refused first, then a radius that is not positive.
    pub fn new(mass: i64, radius: i64, body: Body) -> (r: Result<PhysicalBody, SimError>)
        ensures
            mass <= 0 ==> r == Err::<PhysicalBody, SimError>(SimError::InvalidMass),
            mass > 0 && radius <= 0 ==> r == Err::<PhysicalBody, SimError>(SimError::InvalidRadius),
            mass > 0 && radius > 0 ==> r is Ok && r->Ok_0@ == (PhysicalState {
                mass: mass as nat,
                radius: radius as nat,
                body: body@,
            }),
    {
        if mass <= 0 {
            Err(SimError::InvalidMass)
        } else if radius <= 0 {
            Err(SimError::InvalidRadius)
        } else {
            proof {
                use_type_invariant(&body);
            }
            Ok(PhysicalBody { mass: mass as u64, radius: radius as u64, body })
        }
    }

    /// A body at rest at `(x, y)` whose radius on screen is its true radius
    /// under `scale`, rounded down. A mass that is not positive is refused
    /// first, then a radius that is not positive, then a position that is
    /// not finite.
    pub fn at_rest(mass: i64, radius: i64, x: i64, y: i64, color: Rgba, scale: Scale) -> (r: Result<
        PhysicalBody,
        SimError,
    >)
        ensures
            mass <= 0 ==> r == Err::<PhysicalBody, SimError>(SimError::InvalidMass),
            mass > 0 && radius <= 0 ==> r == Err::<PhysicalBody, SimError>(SimError::InvalidRadius),
            mass > 0 && radius > 0 && !(Point { x: x as int, y: y as int }).is_finite() ==> r == Err::<
                PhysicalBody,
                SimError,
            >(SimError::NonFinite),
            mass > 0 && radius > 0 && (Point { x: x as int, y: y as int }).is_finite() ==> r is Ok
                && r->Ok_0@ == (PhysicalState {
                mass: mass as nat,
                radius: radius as nat,
                body: BodyState::at_rest(
                    Point { x: x as int, y: y as int },
                    radius as nat / scale.units(),
                    color,
                ),
            }),
    {
        if mass <= 0 {
            Err(SimError::InvalidMass)
        } else if radius <= 0 {
            Err(SimError::InvalidRadius)
        } else {
            match Body::new(x, y, scale.length_to_pixels(radius as u64), color) {
                Ok(body) => PhysicalBody::new(mass, radius, body),
                Err(e) => Err(e),
            }
        }
    }

    pub fn mass(&self) -> (r: u64)
        ensures
            r == self@.mass,
            r >= 1,
    {
        proof {
            use_type_invariant(self);
        }
        self.mass
    }

    /// The true radius, in simulation units.
    pub fn radius(&self) -> (r: u64)
        ensures
            r == self@.radius,
            r >= 1,
    {
        proof {
            use_type_invariant(self);
        }
        self.radius
    }

    pub fn body(&self) -> (r: Body)
        ensures
            r@ == self@.body,
    {
        self.body
    }

    /// Replaces the kinematic state; mass and radius stay.
    pub fn set_body(&mut self, body: Body)
        ensures
            final(self)@ == old(self)@.with_body(body@),
    {
        proof {
            use_type_invariant(&*self);
            use_type_invariant(&body);
        }
        self.body = body;
    }

    /// What to draw for this body under `scale`.
    pub fn sprite(&self, scale: Scale) -> (r: Sprite)
        ensures
            self@.drawn_as(scale.units(), r),
    {
        let (x, y) = scale.project(self.body.position());
        Sprite { x, y, radius: self.body.radius(), color: self.body.color() }
    }
}

/// Two physical bodies that stand for the same state are the same.
pub proof fn lemma_physical_view_injective(a: PhysicalBody, b: PhysicalBody)
    requires
        a@ == b@,
    ensures
        a == b,
{
    lemma_body_view_injective(a.body, b.body);
}

} // verus!
