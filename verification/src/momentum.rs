use vstd::prelude::*;
use vstd::arithmetic::div_mod::lemma_fundamental_div_mod;
use vstd::arithmetic::div_mod::lemma_mod_bound;
use crate::law::lemma_distance_symmetric;
use crate::law::lemma_pull_direction;
use crate::law::lemma_pull_divisor_positive;
use crate::law::magnitude;
use crate::law::pull;
use crate::law::pull_numerator;
use crate::ratio::Fraction;
use crate::system::Interaction;
use crate::system::SystemState;
use crate::vector::Point;

verus! {

/// The total momentum of the two bodies: mass times velocity, summed.
pub open spec fn momentum(s: SystemState) -> Point {
    Point {
        x: s.primary.mass * s.primary.body.velocity.x + s.satellite.mass
            * s.satellite.body.velocity.x,
        y: s.primary.mass * s.primary.body.velocity.y + s.satellite.mass
            * s.satellite.body.velocity.y,
    }
}

/// The greater of the two masses.
pub open spec fn heavier(s: SystemState) -> nat {
    if s.primary.mass >= s.satellite.mass {
        s.primary.mass
    } else {
        s.satellite.mass
    }
}

/// Every time step of the list is positive.
pub open spec fn all_valid(dts: Seq<Fraction>) -> bool {
    forall|i: int| 0 <= i < dts.len() ==> (#[trigger] dts[i]).valid()
}

/// Two quotients over one divisor, of numerators in the ratio `m_a : m_b`,
/// weigh the same up to rounding.
proof fn lemma_weighted_quotients(n_a: nat, n_b: nat, m_a: nat, m_b: nat, divisor: nat)
    requires
        divisor >= 1,
        m_a >= 1,
        m_b >= 1,
        m_b * n_b == m_a * n_a,
    ensures
        -(m_b as int) < m_b * (n_b / divisor) - m_a * (n_a / divisor) < m_a,
{
    let q_a = (n_a / divisor) as int;
    let q_b = (n_b / divisor) as int;
    let r_a = (n_a % divisor) as int;
    let r_b = (n_b % divisor) as int;
    let d = divisor as int;
    lemma_fundamental_div_mod(n_a as int, d);
    lemma_fundamental_div_mod(n_b as int, d);
    lemma_mod_bound(n_a as int, d);
    lemma_mod_bound(n_b as int, d);
    let gap = m_b * q_b - m_a * q_a;
    assert(d * gap == m_a * r_a - m_b * r_b) by (nonlinear_arith)
        requires
            n_a == d * q_a + r_a,
            n_b == d * q_b + r_b,
            m_b * n_b == m_a * n_a,
            gap == m_b * q_b - m_a * q_a,
    ;
    assert(m_a * r_a - m_b * r_b < m_a * d) by (nonlinear_arith)
        requires
            0 <= r_a < d,
            0 <= r_b,
            m_a >= 1,
            m_b >= 1,
    ;
    assert(m_a * r_a - m_b * r_b > -(m_b * d)) by (nonlinear_arith)
        requires
            0 <= r_b < d,
            0 <= r_a,
            m_a >= 1,
            m_b >= 1,
    ;
    assert(gap < m_a) by (nonlinear_arith)
        requires
            d * gap < m_a * d,
            d >= 1,
    ;
    assert(gap > -(m_b as int)) by (nonlinear_arith)
        requires
            d * gap > -(m_b * d),
            d >= 1,
    ;
}

/// The pulls that two masses give each other along one axis, weighted by
/// the masses they act on, cancel up to rounding, and cancel exactly when
/// the masses are equal.
pub proof fn lemma_paired_pulls(g: Fraction, dt: Fraction, m_a: nat, m_b: nat, s: int, distance: nat)
    requires
        g.valid(),
        dt.valid(),
        distance >= 1,
        m_a >= 1,
        m_b >= 1,
    ensures
        ({
            let drift = m_b * pull(g, m_a, dt, s, distance) + m_a * pull(g, m_b, dt, -s, distance);
            &&& m_a == m_b ==> drift == 0
            &&& magnitude(drift) <= (if m_a >= m_b {
                m_a
            } else {
                m_b
            }) - 1
        }),
{
    lemma_pull_divisor_positive(g, dt, distance);
    lemma_pull_direction(g, m_a, dt, s, distance);
    lemma_pull_direction(g, m_b, dt, s, distance);
    let divisor = g.den * dt.den * distance * distance * distance;
    let n_b = pull_numerator(g, m_a, dt, s);
    let n_a = pull_numerator(g, m_b, dt, s);
    let len = magnitude(s);
    assert(m_b * n_b == m_a * n_a) by (nonlinear_arith)
        requires
            n_b == g.num * m_a * dt.num * len,
            n_a == g.num * m_b * dt.num * len,
    ;
    lemma_weighted_quotients(n_a, n_b, m_a, m_b, divisor);
    let q_a = (n_a / divisor) as int;
    let q_b = (n_b / divisor) as int;
    let on_b = pull(g, m_a, dt, s, distance);
    let on_a = pull(g, m_b, dt, -s, distance);
    assert(on_a == -pull(g, m_b, dt, s, distance));
    if s < 0 {
        assert(on_b == -q_b);
        assert(on_a == q_a);
        assert(m_b * on_b + m_a * on_a == -(m_b * q_b - m_a * q_a)) by (nonlinear_arith)
            requires
                on_b == -q_b,
                on_a == q_a,
        ;
    } else {
        assert(on_b == q_b);
        assert(on_a == -q_a);
        assert(m_b * on_b + m_a * on_a == m_b * q_b - m_a * q_a) by (nonlinear_arith)
            requires
                on_b == q_b,
                on_a == -q_a,
        ;
    }
}

/// One step under mutual gravity changes the total momentum, along each
/// axis, by less than the greater mass, and not at all when the masses are
/// equal. Masses, law and interaction stay as they were.
pub proof fn lemma_step_momentum(s: SystemState, dt: Fraction)
    requires
        s.valid(),
        dt.valid(),
        s.interaction == Interaction::Mutual,
    ensures
        s.step(dt).valid(),
        s.step(dt).interaction == s.interaction,
        s.step(dt).law == s.law,
        s.step(dt).primary.mass == s.primary.mass,
        s.step(dt).satellite.mass == s.satellite.mass,
        magnitude(momentum(s.step(dt)).x - momentum(s).x) <= heavier(s) - 1,
        magnitude(momentum(s.step(dt)).y - momentum(s).y) <= heavier(s) - 1,
        s.primary.mass == s.satellite.mass ==> momentum(s.step(dt)) == momentum(s),
{
    let from = s.satellite.body.position;
    let toward = s.primary.body.position;
    let m_p = s.primary.mass;
    let m_s = s.satellite.mass;
    lemma_distance_symmetric(from, toward);
    let d = s.law.reach(from, toward);
    assert(d == s.law.reach(toward, from));
    let on_s = s.pull_on_satellite(dt);
    let on_p = s.pull_on_primary(dt);
    lemma_paired_pulls(s.law.g, dt, m_p, m_s, toward.x - from.x, d);
    lemma_paired_pulls(s.law.g, dt, m_p, m_s, toward.y - from.y, d);
    assert(on_s.x == pull(s.law.g, m_p, dt, toward.x - from.x, d));
    assert(on_p.x == pull(s.law.g, m_s, dt, -(toward.x - from.x), d));
    assert(on_s.y == pull(s.law.g, m_p, dt, toward.y - from.y, d));
    assert(on_p.y == pull(s.law.g, m_s, dt, -(toward.y - from.y), d));
    let v_p = s.primary.body.velocity;
    let v_s = s.satellite.body.velocity;
    let after = s.step(dt);
    assert(after.primary.body.velocity == v_p.plus(on_p));
    assert(after.satellite.body.velocity == v_s.plus(on_s));
    assert(momentum(after).x - momentum(s).x == m_s * on_s.x + m_p * on_p.x) by (nonlinear_arith)
        requires
            momentum(after).x == m_p * (v_p.x + on_p.x) + m_s * (v_s.x + on_s.x),
            momentum(s).x == m_p * v_p.x + m_s * v_s.x,
    ;
    assert(momentum(after).y - momentum(s).y == m_s * on_s.y + m_p * on_p.y) by (nonlinear_arith)
        requires
            momentum(after).y == m_p * (v_p.y + on_p.y) + m_s * (v_s.y + on_s.y),
            momentum(s).y == m_p * v_p.y + m_s * v_s.y,
    ;
}

/// Over any run under mutual gravity the total momentum drifts, along each
/// axis, by no more than one unit of rounding under the greater mass for
/// each step taken, and it does not drift when the masses are equal.
pub proof fn lemma_momentum_drift(s: SystemState, dts: Seq<Fraction>)
    requires
        s.valid(),
        s.interaction == Interaction::Mutual,
        all_valid(dts),
    ensures
        s.run(dts).valid(),
        s.run(dts).interaction == s.interaction,
        s.run(dts).law == s.law,
        s.run(dts).primary.mass == s.primary.mass,
        s.run(dts).satellite.mass == s.satellite.mass,
        magnitude(momentum(s.run(dts)).x - momentum(s).x) <= dts.len() * (heavier(s) - 1),
        magnitude(momentum(s.run(dts)).y - momentum(s).y) <= dts.len() * (heavier(s) - 1),
        s.primary.mass == s.satellite.mass ==> momentum(s.run(dts)) == momentum(s),
    decreases dts.len(),
{
    if dts.len() > 0 {
        let before = dts.drop_last();
        assert(all_valid(before)) by {
            assert forall|i: int| 0 <= i < before.len() implies (#[trigger] before[i]).valid() by {
                assert(before[i] == dts[i]);
            }
        }
        lemma_momentum_drift(s, before);
        let mid = s.run(before);
        assert(dts.last().valid());
        lemma_step_momentum(mid, dts.last());
        assert(heavier(mid) == heavier(s));
        let slack = heavier(s) - 1;
        assert(dts.len() * slack == before.len() * slack + slack) by (nonlinear_arith)
            requires
                dts.len() == before.len() + 1,
        ;
    } else {
        assert(dts.len() * (heavier(s) - 1) == 0) by (nonlinear_arith)
            requires
                dts.len() == 0,
        ;
    }
}

/// The total momentum of a system that starts at rest stays near zero under
/// mutual gravity: after any number of steps it is, along each axis, at most
/// one unit of rounding under the greater mass for each step taken, and it
/// is exactly zero when the masses are equal.
pub proof fn lemma_momentum_from_rest(s: SystemState, dts: Seq<Fraction>)
    requires
        s.valid(),
        s.interaction == Interaction::Mutual,
        all_valid(dts),
        s.primary.body.velocity == Point::origin(),
        s.satellite.body.velocity == Point::origin(),
    ensures
        magnitude(momentum(s.run(dts)).x) <= dts.len() * (heavier(s) - 1),
        magnitude(momentum(s.run(dts)).y) <= dts.len() * (heavier(s) - 1),
        s.primary.mass == s.satellite.mass ==> momentum(s.run(dts)) == Point::origin(),
{
    lemma_momentum_drift(s, dts);
    assert(momentum(s) == Point::origin()) by (nonlinear_arith)
        requires
            momentum(s).x == s.primary.mass * 0 + s.satellite.mass * 0,
            momentum(s).y == s.primary.mass * 0 + s.satellite.mass * 0,
    ;
}

} // verus!
