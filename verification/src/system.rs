use vstd::prelude::*;
use crate::body::Body;
use crate::body::BodyState;
use crate::body::Rgba;
use crate::error::SimError;
use crate::gravity::lemma_gravity_view_injective;
use crate::gravity::Gravity;
use crate::gravity::distance;
use crate::law::distance_between;
use crate::law::Law;
use crate::physical::lemma_physical_view_injective;
use crate::physical::PhysicalBody;
use crate::physical::PhysicalState;
use crate::physical::Sprite;
use crate::ratio::Fraction;
use crate::ratio::Ratio;
use crate::units::lemma_scale_units_injective;
use crate::units::Scale;
use crate::vector::Point;
use crate::vector::Vec2;
use crate::vector::LIMIT;

verus! {

/// Which bodies gravity moves.
#[derive(Clone, Copy, Debug, PartialEq, Eq, Structural)]
pub enum Interaction {
    /// Only the satellite is pulled; the primary keeps the acceleration it has.
    SatelliteOnly,
    /// Each body is pulled by the other.
    Mutual,
}

/// A primary and its satellite under one law over the mathematical
/// integers: what a `System` stands for.
pub struct SystemState {
    pub law: Law,
    pub units_per_pixel: nat,
    pub interaction: Interaction,
    pub primary: PhysicalState,
    pub satellite: PhysicalState,
}

impl SystemState {
    pub open spec fn valid(self) -> bool {
        &&& self.law.valid()
        &&& self.units_per_pixel >= 1
        &&& self.primary.valid()
        &&& self.satellite.valid()
    }

    /// The magnitude of the force between the two bodies where they stand.
    pub open spec fn force(self) -> nat {
        self.law.force(
            self.primary.mass,
            self.satellite.mass,
            distance_between(self.satellite.body.position, self.primary.body.position),
        )
    }

    /// Whether that force can be formed.
    pub open spec fn force_defined(self) -> bool {
        self.law.force_numerator(self.primary.mass, self.satellite.mass) <= u128::MAX
    }

    /// The acceleration of the satellite under the pull of the primary.
    pub open spec fn pull_on_satellite(self, dt: Fraction) -> Point {
        self.law.acceleration(
            self.primary.mass,
            dt,
            self.satellite.body.position,
            self.primary.body.position,
        )
    }

    /// The acceleration of the primary under the pull of the satellite.
    pub open spec fn pull_on_primary(self, dt: Fraction) -> Point {
        self.law.acceleration(
            self.satellite.mass,
            dt,
            self.primary.body.position,
            self.satellite.body.position,
        )
    }

    /// Whether the accelerations that a step needs can be formed.
    pub open spec fn pulls_defined(self, dt: Fraction) -> bool {
        &&& self.law.acceleration_defined(
            self.primary.mass,
            dt,
            self.satellite.body.position,
            self.primary.body.position,
        )
        &&& self.interaction == Interaction::Mutual ==> self.law.acceleration_defined(
            self.satellite.mass,
            dt,
            self.primary.body.position,
            self.satellite.body.position,
        )
    }

    /// One step of length `dt`. Every pull is taken from the positions
    /// before the step and replaces the acceleration left by the step
    /// before; then each body advances once.
    pub open spec fn step(self, dt: Fraction) -> SystemState {
        SystemState {
            satellite: self.satellite.with_body(
                self.satellite.body.with_acceleration(self.pull_on_satellite(dt)).advance(),
            ),
            primary: self.primary.with_body(
                match self.interaction {
                    Interaction::Mutual => self.primary.body.with_acceleration(
                        self.pull_on_primary(dt),
                    ).advance(),
                    Interaction::SatelliteOnly => self.primary.body.advance(),
                },
            ),
            ..self
        }
    }

    /// Whether a step of length `dt` stays finite.
    pub open spec fn step_defined(self, dt: Fraction) -> bool {
        &&& self.pulls_defined(dt)
        &&& self.step(dt).satellite.body.is_finite()
        &&& self.step(dt).primary.body.is_finite()
    }

    /// The state after one step for each entry of `dts`, in order.
    pub open spec fn run(self, dts: Seq<Fraction>) -> SystemState
        decreases dts.len(),
    {
        if dts.len() == 0 {
            self
        } else {
            self.run(dts.drop_last()).step(dts.last())
        }
    }

    /// Whether every step of that run stays finite.
    pub open spec fn run_defined(self, dts: Seq<Fraction>) -> bool
        decreases dts.len(),
    {
        if dts.len() == 0 {
            true
        } else {
            self.run_defined(dts.drop_last()) && self.run(dts.drop_last()).step_defined(dts.last())
        }
    }
}

/// Where a satellite of radius `radius` starts: straight below the primary
/// on the second axis, with `separation` between the two surfaces.
pub open spec fn satellite_start(primary: PhysicalState, radius: nat, separation: nat) -> Point {
    Point {
        x: primary.body.position.x,
        y: primary.body.position.y - (primary.radius + radius + separation),
    }
}

/// What a list of time steps stands for.
pub open spec fn fractions(dts: Seq<Ratio>) -> Seq<Fraction> {
    Seq::new(dts.len(), |i: int| dts[i]@)
}

/// A primary and its satellite, the law between them and the scale at which
/// they are drawn.
#[derive(Clone, Copy, Debug, PartialEq, Eq, Structural)]
pub struct System {
    gravity: Gravity,
    scale: Scale,
    interaction: Interaction,
    primary: PhysicalBody,
    satellite: PhysicalBody,
}

impl View for System {
    type V = SystemState;

    closed spec fn view(&self) -> SystemState {
        SystemState {
            law: self.gravity@,
            units_per_pixel: self.scale.units(),
            interaction: self.interaction,
            primary: self.primary@,
            satellite: self.satellite@,
        }
    }
}

/// `body` with its acceleration replaced by `acceleration` and then advanced once.
fn pulled(body: Body, acceleration: Vec2) -> (r: Result<Body, SimError>)
    ensures
        body@.with_acceleration(acceleration@).advance().is_finite() ==> r is Ok && r->Ok_0@
            == body@.with_acceleration(acceleration@).advance(),
        !body@.with_acceleration(acceleration@).advance().is_finite() ==> r == Err::<Body, SimError>(
            SimError::NonFinite,
        ),
{
    let mut next = body;
    proof {
        use_type_invariant(&acceleration);
    }
    match next.set_acceleration(acceleration.x(), acceleration.y()) {
        Ok(()) => match next.advance() {
            Ok(()) => Ok(next),
            Err(e) => Err(e),
        },
        Err(e) => Err(e),
    }
}

/// `body` advanced once.
fn advanced(body: Body) -> (r: Result<Body, SimError>)
    ensures
        body@.advance().is_finite() ==> r is Ok && r->Ok_0@ == body@.advance(),
        !body@.advance().is_finite() ==> r == Err::<Body, SimError>(SimError::NonFinite),
{
    let mut next = body;
    match next.advance() {
        Ok(()) => Ok(next),
        Err(e) => Err(e),
    }
}

impl System {
    #[verifier::type_invariant]
    pub open spec fn inv(&self) -> bool {
        &&& self@.valid()
        &&& self@.law.g.num <= u64::MAX
        &&& self@.law.g.den <= u64::MAX
        &&& self@.law.min_distance <= u64::MAX
        &&& self@.units_per_pixel <= u64::MAX
        &&& self@.primary.mass <= i64::MAX
        &&& self@.satellite.mass <= i64::MAX
        &&& self@.primary.radius <= i64::MAX
        &&& self@.satellite.radius <= i64::MAX
        &&& self@.primary.body.is_finite()
        &&& self@.satellite.body.is_finite()
    }

    /// The system of the two bodies as they are given.
    pub fn new(
        gravity: Gravity,
        scale: Scale,
        interaction: Interaction,
        primary: PhysicalBody,
        satellite: PhysicalBody,
    ) -> (r: System)
        ensures
            r@ == (SystemState {
                law: gravity@,
                units_per_pixel: scale.units(),
                interaction,
                primary: primary@,
                satellite: satellite@,
            }),
    {
        proof {
            use_type_invariant(&gravity);
            use_type_invariant(&scale);
            use_type_invariant(&primary);
            use_type_invariant(&satellite);
        }
        System { gravity, scale, interaction, primary, satellite }
    }

    /// The system of `primary` and a satellite at rest, placed at
    /// `satellite_start`. A satellite mass that is not positive is refused
    /// first, then a radius that is not positive, then a starting point
    /// that is not finite.
    pub fn with_separation(
        gravity: Gravity,
        scale: Scale,
        interaction: Interaction,
        primary: PhysicalBody,
        satellite_mass: i64,
        satellite_radius: i64,
        satellite_color: Rgba,
        separation: u64,
    ) -> (r: Result<System, SimError>)
        ensures
            satellite_mass <= 0 ==> r == Err::<System, SimError>(SimError::InvalidMass),
            satellite_mass > 0 && satellite_radius <= 0 ==> r == Err::<System, SimError>(
                SimError::InvalidRadius,
            ),
            satellite_mass > 0 && satellite_radius > 0 && !satellite_start(
                primary@,
                satellite_radius as nat,
                separation as nat,
            ).is_finite() ==> r == Err::<System, SimError>(SimError::NonFinite),
            satellite_mass > 0 && satellite_radius > 0 && satellite_start(
                primary@,
                satellite_radius as nat,
                separation as nat,
            ).is_finite() ==> r is Ok && r->Ok_0@ == (SystemState {
                law: gravity@,
                units_per_pixel: scale.units(),
                interaction,
                primary: primary@,
                satellite: PhysicalState {
                    mass: satellite_mass as nat,
                    radius: satellite_radius as nat,
                    body: BodyState::at_rest(
                        satellite_start(primary@, satellite_radius as nat, separation as nat),
                        satellite_radius as nat / scale.units(),
                        satellite_color,
                    ),
                },
            }),
    {
        if satellite_mass <= 0 {
            return Err(SimError::InvalidMass);
        }
        if satellite_radius <= 0 {
            return Err(SimError::InvalidRadius);
        }
        let centre: Vec2 = primary.body().position();
        let gap: u128 = primary.radius() as u128 + satellite_radius as u128 + separation as u128;
        let y: i128 = centre.y() as i128 - gap as i128;
        if y < -(LIMIT as i128) {
            return Err(SimError::NonFinite);
        }
        match PhysicalBody::at_rest(
            satellite_mass,
            satellite_radius,
            centre.x(),
            y as i64,
            satellite_color,
            scale,
        ) {
            Ok(satellite) => Ok(System::new(gravity, scale, interaction, primary, satellite)),
            Err(e) => Err(e),
        }
    }

    pub fn gravity(&self) -> (r: Gravity)
        ensures
            r@ == self@.law,
    {
        self.gravity
    }

    pub fn scale(&self) -> (r: Scale)
        ensures
            r.units() == self@.units_per_pixel,
    {
        self.scale
    }

    pub fn interaction(&self) -> (r: Interaction)
        ensures
            r == self@.interaction,
    {
        self.interaction
    }

    pub fn primary(&self) -> (r: PhysicalBody)
        ensures
            r@ == self@.primary,
    {
        self.primary
    }

    pub fn satellite(&self) -> (r: PhysicalBody)
        ensures
            r@ == self@.satellite,
    {
        self.satellite
    }

    /// The distance between the centres of the two bodies, rounded down.
    pub fn distance(&self) -> (d: u64)
        ensures
            d == distance_between(self@.satellite.body.position, self@.primary.body.position),
    {
        distance(self.satellite.body().position(), self.primary.body().position())
    }

    /// The magnitude of the force that each body exerts on the other,
    /// refused when `G` times the two masses is too wide for the machine.
    pub fn force(&self) -> (r: Result<u128, SimError>)
        ensures
            self@.force_defined() ==> r is Ok && r->Ok_0 == self@.force(),
            !self@.force_defined() ==> r == Err::<u128, SimError>(SimError::NonFinite),
    {
        let d: u64 = self.distance();
        self.gravity.force_magnitude(self.primary.mass(), self.satellite.mass(), d)
    }

    /// What to draw this frame: the primary, then the satellite.
    pub fn sprites(&self) -> (r: (Sprite, Sprite))
        ensures
            self@.primary.drawn_as(self@.units_per_pixel, r.0),
            self@.satellite.drawn_as(self@.units_per_pixel, r.1),
    {
        (self.primary.sprite(self.scale), self.satellite.sprite(self.scale))
    }

    /// Advances the system by one step of length `dt`. Refused, with the
    /// system left as it was, when the step would not stay finite.
    pub fn step(&mut self, dt: Ratio) -> (r: Result<(), SimError>)
        ensures
            old(self)@.step_defined(dt@) ==> r is Ok && final(self)@ == old(self)@.step(dt@),
            !old(self)@.step_defined(dt@) ==> r == Err::<(), SimError>(SimError::NonFinite)
                && *final(self) == *old(self),
    {
        proof {
            use_type_invariant(&*self);
        }
        let primary: Body = self.primary.body();
        let satellite: Body = self.satellite.body();
        let next_satellite: Body = match self.gravity.acceleration_toward(
            self.primary.mass(),
            dt,
            satellite.position(),
            primary.position(),
        ) {
            Ok(pull) => match pulled(satellite, pull) {
                Ok(body) => body,
                Err(e) => {
                    return Err(e);
                },
            },
            Err(e) => {
                return Err(e);
            },
        };
        let next_primary: Body = match self.interaction {
            Interaction::Mutual => match self.gravity.acceleration_toward(
                self.satellite.mass(),
                dt,
                primary.position(),
                satellite.position(),
            ) {
                Ok(pull) => match pulled(primary, pull) {
                    Ok(body) => body,
                    Err(e) => {
                        return Err(e);
                    },
                },
                Err(e) => {
                    return Err(e);
                },
            },
            Interaction::SatelliteOnly => match advanced(primary) {
                Ok(body) => body,
                Err(e) => {
                    return Err(e);
                },
            },
        };
        proof {
            use_type_invariant(&next_primary);
            use_type_invariant(&next_satellite);
        }
        let mut moved_satellite: PhysicalBody = self.satellite;
        let mut moved_primary: PhysicalBody = self.primary;
        moved_satellite.set_body(next_satellite);
        moved_primary.set_body(next_primary);
        proof {
            use_type_invariant(&moved_satellite);
            use_type_invariant(&moved_primary);
        }
        self.satellite = moved_satellite;
        self.primary = moved_primary;
        Ok(())
    }

    /// Takes one step for each entry of `dts`, in order, and stops before
    /// the first step that would not stay finite. Returns how many steps
    /// were taken.
    pub fn run(&mut self, dts: &Vec<Ratio>) -> (done: usize)
        ensures
            done <= dts.len(),
            old(self)@.run_defined(fractions(dts@).take(done as int)),
            done < dts.len() ==> !old(self)@.run_defined(fractions(dts@).take(done + 1)),
            final(self)@ == old(self)@.run(fractions(dts@).take(done as int)),
    {
        let ghost start = self@;
        let ghost fs = fractions(dts@);
        let mut i: usize = 0;
        assert(fs.take(0) =~= Seq::<Fraction>::empty());
        while i < dts.len()
            invariant
                i <= dts.len(),
                start == old(self)@,
                fs == fractions(dts@),
                fs.len() == dts.len(),
                start.run_defined(fs.take(i as int)),
                self@ == start.run(fs.take(i as int)),
            decreases dts.len() - i,
        {
            proof {
                assert(fs.take(i + 1).drop_last() =~= fs.take(i as int));
                assert(fs.take(i + 1).last() == dts@[i as int]@);
            }
            match self.step(dts[i]) {
                Ok(()) => {
                    i = i + 1;
                },
                Err(_) => {
                    return i;
                },
            }
        }
        i
    }
}

/// A run is a function of the starting state and of the time steps alone:
/// two runs from equal states under equal time steps pass through equal
/// states, step for step, and stay finite for equally long.
pub proof fn lemma_run_deterministic(
    a: SystemState,
    b: SystemState,
    dts_a: Seq<Fraction>,
    dts_b: Seq<Fraction>,
    steps: int,
)
    requires
        a == b,
        dts_a.len() == dts_b.len(),
        forall|i: int| 0 <= i < dts_a.len() ==> dts_a[i] == dts_b[i],
        0 <= steps <= dts_a.len(),
    ensures
        a.run(dts_a.take(steps)) == b.run(dts_b.take(steps)),
        a.run_defined(dts_a.take(steps)) == b.run_defined(dts_b.take(steps)),
{
    assert(dts_a =~= dts_b);
}

/// A run taken in two parts is the whole run: running `head` and then
/// `tail` from where `head` ended is running the two lists joined, and the
/// one stays finite exactly when the other does.
pub proof fn lemma_run_in_parts(s: SystemState, head: Seq<Fraction>, tail: Seq<Fraction>)
    ensures
        s.run(head + tail) == s.run(head).run(tail),
        s.run_defined(head + tail) == (s.run_defined(head) && s.run(head).run_defined(tail)),
    decreases tail.len(),
{
    if tail.len() == 0 {
        assert(head + tail =~= head);
    } else {
        assert((head + tail).drop_last() =~= head + tail.drop_last());
        assert((head + tail).last() == tail.last());
        lemma_run_in_parts(s, head, tail.drop_last());
    }
}

/// What a system stands for leaves nothing of the system out: two systems
/// with equal states are equal in every field.
pub proof fn lemma_system_view_injective(a: System, b: System)
    requires
        a@ == b@,
    ensures
        a == b,
{
    lemma_gravity_view_injective(a.gravity, b.gravity);
    lemma_scale_units_injective(a.scale, b.scale);
    lemma_physical_view_injective(a.primary, b.primary);
    lemma_physical_view_injective(a.satellite, b.satellite);
}

} // verus!
