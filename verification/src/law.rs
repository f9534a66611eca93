use vstd::prelude::*;
use vstd::arithmetic::div_mod::lemma_div_basics_1;
use vstd::arithmetic::div_mod::lemma_div_basics_2;
use vstd::arithmetic::div_mod::lemma_div_denominator;
use vstd::arithmetic::div_mod::lemma_div_is_ordered_by_denominator;
use vstd::arithmetic::div_mod::lemma_div_multiples_vanish_quotient;
use vstd::arithmetic::div_mod::lemma_fundamental_div_mod;
use crate::numeric::is_sqrt_floor;
use crate::numeric::lemma_sqrt_floor;
use crate::numeric::sqrt_floor;
use crate::ratio::Fraction;
use crate::vector::finite;
use crate::vector::Point;

verus! {

/// The absolute value of a whole number.
pub open spec fn magnitude(v: int) -> nat {
    if v < 0 {
        (-v) as nat
    } else {
        v as nat
    }
}

/// The Euclidean distance between two points, rounded down.
pub open spec fn distance_between(a: Point, b: Point) -> nat {
    sqrt_floor(b.minus(a).norm_squared())
}

/// A distance kept from falling under `min_distance`.
pub open spec fn clamped(distance: nat, min_distance: nat) -> nat {
    if distance < min_distance {
        min_distance
    } else {
        distance
    }
}

/// Newton's law on whole numbers: `G * m1 * m2 / distance^2`, rounded down,
/// with `G` the fraction `g`.
pub open spec fn force_at(g: Fraction, m1: nat, m2: nat, distance: nat) -> nat {
    (g.num * m1 * m2) / (g.den * distance * distance)
}

/// The numerator of one component of an acceleration, before any division.
pub open spec fn pull_numerator(g: Fraction, mass: nat, dt: Fraction, s: int) -> nat {
    g.num * mass * dt.num * magnitude(s)
}

/// One component of the acceleration that a mass `mass` at separation `s`
/// along this axis, and at distance `distance`, gives over a step `dt`:
/// `G * mass * s * dt / distance^3`, rounded toward zero.
pub open spec fn pull(g: Fraction, mass: nat, dt: Fraction, s: int, distance: nat) -> int {
    let q = pull_numerator(g, mass, dt, s) / (g.den * dt.den * distance * distance * distance);
    if s < 0 {
        -(q as int)
    } else {
        q as int
    }
}

/// Whether one component of an acceleration can be formed: its numerator
/// fits the widest machine integer and the component is finite.
pub open spec fn pull_defined(g: Fraction, mass: nat, dt: Fraction, s: int, distance: nat) -> bool {
    pull_numerator(g, mass, dt, s) <= u128::MAX && finite(pull(g, mass, dt, s, distance))
}

/// The law of gravitation with its constants: what a `Gravity` stands for.
pub struct Law {
    /// The gravitational constant in simulation units.
    pub g: Fraction,
    /// The distance under which two bodies are taken to be this far apart.
    pub min_distance: nat,
}

impl Law {
    pub open spec fn valid(self) -> bool {
        self.g.valid() && self.min_distance >= 1
    }

    /// The distance between two points as the law sees it: never under the minimum.
    pub open spec fn reach(self, a: Point, b: Point) -> nat {
        clamped(distance_between(a, b), self.min_distance)
    }

    /// `G * m1 * m2`, scaled by the denominator of `G`.
    pub open spec fn force_numerator(self, m1: nat, m2: nat) -> nat {
        self.g.num * m1 * m2
    }

    /// The magnitude of the force between masses `m1` and `m2` at `distance`.
    pub open spec fn force(self, m1: nat, m2: nat, distance: nat) -> nat {
        force_at(self.g, m1, m2, clamped(distance, self.min_distance))
    }

    /// The acceleration, over a step `dt`, of a body at `from` toward a mass
    /// `mass` at `toward`: along the separation vector, pointing at `toward`.
    pub open spec fn acceleration(self, mass: nat, dt: Fraction, from: Point, toward: Point) -> Point {
        let s = toward.minus(from);
        let d = self.reach(from, toward);
        Point { x: pull(self.g, mass, dt, s.x, d), y: pull(self.g, mass, dt, s.y, d) }
    }

    /// Whether that acceleration can be formed.
    pub open spec fn acceleration_defined(self, mass: nat, dt: Fraction, from: Point, toward: Point) -> bool {
        let s = toward.minus(from);
        let d = self.reach(from, toward);
        pull_defined(self.g, mass, dt, s.x, d) && pull_defined(self.g, mass, dt, s.y, d)
    }
}

/// What the rounded-down distance is: its square does not exceed the
/// square of the Euclidean length of the separation, and the square of the
/// next number does.
pub proof fn lemma_distance_brackets(a: Point, b: Point)
    ensures
        is_sqrt_floor(b.minus(a).norm_squared(), distance_between(a, b)),
{
    lemma_sqrt_floor(b.minus(a).norm_squared());
}

/// The distance from `a` to `b` is the distance from `b` to `a`.
pub proof fn lemma_distance_symmetric(a: Point, b: Point)
    ensures
        distance_between(a, b) == distance_between(b, a),
{
    assert((b.x - a.x) * (b.x - a.x) == (a.x - b.x) * (a.x - b.x)) by (nonlinear_arith);
    assert((b.y - a.y) * (b.y - a.y) == (a.y - b.y) * (a.y - b.y)) by (nonlinear_arith);
}

/// The divisor of a pull is positive.
pub proof fn lemma_pull_divisor_positive(g: Fraction, dt: Fraction, distance: nat)
    requires
        g.valid(),
        dt.valid(),
        distance >= 1,
    ensures
        g.den * dt.den * distance * distance * distance >= 1,
{
    assert(g.den * dt.den * distance * distance * distance >= 1) by (nonlinear_arith)
        requires
            g.den >= 1,
            dt.den >= 1,
            distance >= 1,
    ;
}

/// A pull points the way the separation points, vanishes with it, and turns
/// round when the separation turns round.
pub proof fn lemma_pull_direction(g: Fraction, mass: nat, dt: Fraction, s: int, distance: nat)
    requires
        g.valid(),
        dt.valid(),
        distance >= 1,
    ensures
        s > 0 ==> pull(g, mass, dt, s, distance) >= 0,
        s < 0 ==> pull(g, mass, dt, s, distance) <= 0,
        s == 0 ==> pull(g, mass, dt, s, distance) == 0,
        pull(g, mass, dt, -s, distance) == -pull(g, mass, dt, s, distance),
        pull_defined(g, mass, dt, -s, distance) == pull_defined(g, mass, dt, s, distance),
{
    lemma_pull_divisor_positive(g, dt, distance);
    let divisor = g.den * dt.den * distance * distance * distance;
    assert(magnitude(-s) == magnitude(s));
    if s == 0 {
        assert(pull_numerator(g, mass, dt, s) == 0) by (nonlinear_arith)
            requires
                pull_numerator(g, mass, dt, s) == g.num * mass * dt.num * 0,
        ;
        lemma_div_basics_1(divisor as int);
    }
}

/// The force that two masses exert on each other has one magnitude,
/// whichever of the two it is measured from.
pub proof fn lemma_force_mutual(law: Law, m1: nat, m2: nat, a: Point, b: Point)
    ensures
        law.force(m1, m2, distance_between(a, b)) == law.force(m2, m1, distance_between(b, a)),
        law.force_numerator(m1, m2) == law.force_numerator(m2, m1),
{
    lemma_distance_symmetric(a, b);
    assert(law.g.num * m1 * m2 == law.g.num * m2 * m1) by (nonlinear_arith);
}

/// Two bodies of equal mass pull each other with forces of equal magnitude
/// and with accelerations that are equal and opposite; the one can be formed
/// exactly when the other can.
pub proof fn lemma_equal_masses_symmetric(law: Law, mass: nat, dt: Fraction, a: Point, b: Point)
    requires
        law.valid(),
        dt.valid(),
    ensures
        law.force(mass, mass, distance_between(a, b)) == law.force(mass, mass, distance_between(b, a)),
        law.acceleration(mass, dt, a, b) == law.acceleration(mass, dt, b, a).negated(),
        law.acceleration_defined(mass, dt, a, b) == law.acceleration_defined(mass, dt, b, a),
{
    lemma_distance_symmetric(a, b);
    let d = law.reach(a, b);
    lemma_pull_direction(law.g, mass, dt, b.x - a.x, d);
    lemma_pull_direction(law.g, mass, dt, b.y - a.y, d);
}

/// An acceleration points at the mass that causes it: along each axis it has
/// the sign of the separation, and it is zero where the separation is zero.
pub proof fn lemma_acceleration_points_at_mass(
    law: Law,
    mass: nat,
    dt: Fraction,
    from: Point,
    toward: Point,
)
    requires
        law.valid(),
        dt.valid(),
    ensures
        toward.x > from.x ==> law.acceleration(mass, dt, from, toward).x >= 0,
        toward.x < from.x ==> law.acceleration(mass, dt, from, toward).x <= 0,
        toward.x == from.x ==> law.acceleration(mass, dt, from, toward).x == 0,
        toward.y > from.y ==> law.acceleration(mass, dt, from, toward).y >= 0,
        toward.y < from.y ==> law.acceleration(mass, dt, from, toward).y <= 0,
        toward.y == from.y ==> law.acceleration(mass, dt, from, toward).y == 0,
{
    let d = law.reach(from, toward);
    lemma_pull_direction(law.g, mass, dt, toward.x - from.x, d);
    lemma_pull_direction(law.g, mass, dt, toward.y - from.y, d);
}

/// The acceleration is the force per unit of the mass it acts on. Over a
/// step of one, a body straight along one axis from a mass `m1`, at
/// distance `distance`, is accelerated by `G * m1 / distance^2`, rounded
/// down; and that is the force between the two divided by the body's own
/// mass `m2`.
pub proof fn lemma_acceleration_is_force_per_mass(g: Fraction, m1: nat, m2: nat, distance: nat)
    requires
        g.valid(),
        m2 >= 1,
        distance >= 1,
    ensures
        pull(g, m1, Fraction { num: 1, den: 1 }, distance as int, distance) == (g.num * m1) / (g.den
            * distance * distance),
        force_at(g, m1, m2, distance) / m2 == (g.num * m1) / (g.den * distance * distance),
{
    let one = Fraction { num: 1, den: 1 };
    let top = (g.num * m1) as int;
    let bottom = (g.den * distance * distance) as int;
    assert(bottom >= 1) by (nonlinear_arith)
        requires
            bottom == g.den * distance * distance,
            g.den >= 1,
            distance >= 1,
    ;
    lemma_div_multiples_vanish_quotient(distance as int, top, bottom);
    assert(pull_numerator(g, m1, one, distance as int) == distance * top) by (nonlinear_arith)
        requires
            pull_numerator(g, m1, one, distance as int) == g.num * m1 * 1 * distance,
            top == g.num * m1,
    ;
    assert(g.den * one.den * distance * distance * distance == distance * bottom)
        by (nonlinear_arith)
        requires
            one.den == 1,
            bottom == g.den * distance * distance,
    ;
    lemma_div_multiples_vanish_quotient(m2 as int, top, bottom);
    assert(g.num * m1 * m2 == m2 * top) by (nonlinear_arith)
        requires
            top == g.num * m1,
    ;
    lemma_div_denominator((g.num * m1 * m2) as int, bottom, m2 as int);
    assert(bottom * m2 == m2 * bottom) by (nonlinear_arith);
}

/// The inverse-square law: at twice the distance the force is a quarter,
/// rounded down, as long as the nearer distance is not under the minimum.
pub proof fn lemma_inverse_square(law: Law, m1: nat, m2: nat, distance: nat)
    requires
        law.valid(),
        distance >= law.min_distance,
    ensures
        law.force(m1, m2, 2 * distance) == law.force(m1, m2, distance) / 4,
        4 * law.force(m1, m2, 2 * distance) <= law.force(m1, m2, distance) < 4 * law.force(
            m1,
            m2,
            2 * distance,
        ) + 4,
{
    let n = law.g.num * m1 * m2;
    let near = law.g.den * distance * distance;
    let far = law.g.den * (2 * distance) * (2 * distance);
    assert(near >= 1) by (nonlinear_arith)
        requires
            near == law.g.den * distance * distance,
            law.g.den >= 1,
            distance >= 1,
    ;
    assert(far == near * 4) by (nonlinear_arith)
        requires
            near == law.g.den * distance * distance,
            far == law.g.den * (2 * distance) * (2 * distance),
    ;
    lemma_div_denominator(n as int, near as int, 4);
    lemma_fundamental_div_mod((n / near) as int, 4);
}

/// The force at and under the minimum distance: it is the force at the
/// minimum, no force is greater, and it is no greater than `G * m1 * m2`
/// over the denominator one.
pub proof fn lemma_force_clamped(law: Law, m1: nat, m2: nat, distance: nat)
    requires
        law.valid(),
    ensures
        distance <= law.min_distance ==> law.force(m1, m2, distance) == force_at(
            law.g,
            m1,
            m2,
            law.min_distance,
        ),
        law.force(m1, m2, distance) <= force_at(law.g, m1, m2, law.min_distance),
        force_at(law.g, m1, m2, law.min_distance) <= law.force_numerator(m1, m2),
{
    let n = law.g.num * m1 * m2;
    let least = law.min_distance;
    let d = clamped(distance, least);
    assert(1 <= law.g.den * least * least <= law.g.den * d * d) by (nonlinear_arith)
        requires
            law.g.den >= 1,
            1 <= least <= d,
    ;
    lemma_div_is_ordered_by_denominator(
        n as int,
        (law.g.den * least * least) as int,
        (law.g.den * d * d) as int,
    );
    lemma_div_is_ordered_by_denominator(n as int, 1, (law.g.den * least * least) as int);
    lemma_div_basics_2(n as int);
}

} // verus!
