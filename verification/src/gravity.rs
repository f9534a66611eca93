use vstd::prelude::*;
use vstd::arithmetic::div_mod::lemma_div_denominator;
use crate::error::SimError;
use crate::law::distance_between;
use crate::law::magnitude;
use crate::law::pull;
use crate::law::pull_defined;
use crate::law::Law;
use crate::numeric::isqrt;
use crate::ratio::lemma_ratio_view_injective;
use crate::ratio::Ratio;
use crate::vector::finite;
use crate::vector::Vec2;
use crate::vector::LIMIT;

verus! {

/// The gravitational constant and the minimum distance of a simulation.
#[derive(Clone, Copy, Debug, PartialEq, Eq, Structural)]
pub struct Gravity {
    g: Ratio,
    min_distance: u64,
}

impl View for Gravity {
    type V = Law;

    closed spec fn view(&self) -> Law {
        Law { g: self.g@, min_distance: self.min_distance as nat }
    }
}

/// `|b - a|` for two finite coordinates.
fn span(a: i64, b: i64) -> (r: u64)
    requires
        finite(a as int),
        finite(b as int),
    ensures
        r == magnitude(b - a),
        r <= 2 * LIMIT,
{
    if b >= a {
        (b - a) as u64
    } else {
        (a - b) as u64
    }
}

/// The square of a magnitude is the square of the number.
proof fn lemma_magnitude_squared(v: int)
    ensures
        magnitude(v) * magnitude(v) == v * v,
{
    if v < 0 {
        assert((-v) * (-v) == v * v) by (nonlinear_arith);
    }
}

/// The Euclidean distance between two points, rounded down.
pub fn distance(a: Vec2, b: Vec2) -> (d: u64)
    ensures
        d == distance_between(a@, b@),
{
    let dx: u64 = span(a.x(), b.x());
    let dy: u64 = span(a.y(), b.y());
    let wx: u128 = dx as u128;
    let wy: u128 = dy as u128;
    assert(wx * wx + wy * wy <= u128::MAX) by (nonlinear_arith)
        requires
            0 <= wx <= 2 * LIMIT,
            0 <= wy <= 2 * LIMIT,
            LIMIT == 1_000_000_000_000_000_000,
    ;
    proof {
        lemma_magnitude_squared(b@.x - a@.x);
        lemma_magnitude_squared(b@.y - a@.y);
    }
    isqrt(wx * wx + wy * wy)
}

/// Dividing in turn by three numbers is dividing by their product.
proof fn lemma_divide_thrice(n: int, a: int, b: int, c: int)
    requires
        n >= 0,
        a >= 1,
        b >= 1,
        c >= 1,
    ensures
        a * b * c >= 1,
        n / a / b / c == n / (a * b * c),
{
    lemma_div_denominator(n, a, b);
    assert(a * b >= 1) by (nonlinear_arith)
        requires
            a >= 1,
            b >= 1,
    ;
    lemma_div_denominator(n, a * b, c);
    assert(a * b * c >= 1) by (nonlinear_arith)
        requires
            a * b >= 1,
            c >= 1,
    ;
}

/// The product of two 64-bit numbers fits 128 bits.
proof fn lemma_product_fits(a: u64, b: u64)
    ensures
        a * b <= u128::MAX,
{
    assert(a * b <= u128::MAX) by (nonlinear_arith)
        requires
            0 <= a <= 0xffff_ffff_ffff_ffff,
            0 <= b <= 0xffff_ffff_ffff_ffff,
    ;
}

impl Gravity {
    #[verifier::type_invariant]
    pub open spec fn inv(&self) -> bool {
        self@.valid() && self@.g.num <= u64::MAX && self@.g.den <= u64::MAX && self@.min_distance
            <= u64::MAX
    }

    /// The law with constant `g`, under which no two bodies are taken to be
    /// closer than `min_distance`; refused when `min_distance` is zero.
    pub fn new(g: Ratio, min_distance: u64) -> (r: Result<Gravity, SimError>)
        ensures
            min_distance >= 1 ==> r is Ok && r->Ok_0@ == (Law {
                g: g@,
                min_distance: min_distance as nat,
            }),
            min_distance == 0 ==> r == Err::<Gravity, SimError>(SimError::InvalidConstant),
    {
        if min_distance == 0 {
            Err(SimError::InvalidConstant)
        } else {
            proof {
                use_type_invariant(&g);
            }
            Ok(Gravity { g, min_distance })
        }
    }

    pub fn constant(&self) -> (r: Ratio)
        ensures
            r@ == self@.g,
    {
        self.g
    }

    pub fn min_distance(&self) -> (r: u64)
        ensures
            r == self@.min_distance,
            r >= 1,
    {
        proof {
            use_type_invariant(self);
        }
        self.min_distance
    }

    /// The distance between two points, kept from falling under the minimum.
    pub fn reach(&self, a: Vec2, b: Vec2) -> (d: u64)
        ensures
            d == self@.reach(a@, b@),
            d >= 1,
    {
        proof {
            use_type_invariant(self);
        }
        let d = distance(a, b);
        if d < self.min_distance {
            self.min_distance
        } else {
            d
        }
    }

    /// The magnitude of the force between two masses at `distance`. The
    /// distance is clamped at the minimum, so closeness never refuses a
    /// force; only a numerator `G * m1 * m2` too wide for the machine does.
    pub fn force_magnitude(&self, m1: u64, m2: u64, distance: u64) -> (r: Result<u128, SimError>)
        ensures
            self@.force_numerator(m1 as nat, m2 as nat) <= u128::MAX ==> r is Ok && r->Ok_0
                == self@.force(m1 as nat, m2 as nat, distance as nat),
            self@.force_numerator(m1 as nat, m2 as nat) > u128::MAX ==> r == Err::<u128, SimError>(
                SimError::NonFinite,
            ),
    {
        proof {
            use_type_invariant(self);
        }
        let num: u64 = self.g.numerator();
        let den: u64 = self.g.denominator();
        let d: u64 = if distance < self.min_distance {
            self.min_distance
        } else {
            distance
        };
        proof {
            lemma_product_fits(num, m1);
        }
        let partial: u128 = (num as u128) * (m1 as u128);
        match partial.checked_mul(m2 as u128) {
            Some(n) => {
                proof {
                    lemma_divide_thrice(n as int, den as int, d as int, d as int);
                }
                Ok(n / (den as u128) / (d as u128) / (d as u128))
            },
            None => Err(SimError::NonFinite),
        }
    }

    /// One component of an acceleration: see `pull`.
    fn pull_component(&self, mass: u64, dt: Ratio, s: i64, d: u64) -> (r: Result<i64, SimError>)
        requires
            -2 * LIMIT <= s <= 2 * LIMIT,
            d >= 1,
        ensures
            pull_defined(self@.g, mass as nat, dt@, s as int, d as nat) ==> r is Ok && r->Ok_0 == pull(
                self@.g,
                mass as nat,
                dt@,
                s as int,
                d as nat,
            ),
            !pull_defined(self@.g, mass as nat, dt@, s as int, d as nat) ==> r == Err::<i64, SimError>(
                SimError::NonFinite,
            ),
    {
        proof {
            use_type_invariant(self);
        }
        let num: u64 = self.g.numerator();
        let den: u64 = self.g.denominator();
        let step_num: u64 = dt.numerator();
        let step_den: u64 = dt.denominator();
        let len: u64 = if s < 0 {
            (-s) as u64
        } else {
            s as u64
        };
        proof {
            lemma_product_fits(num, mass);
            lemma_product_fits(step_num, len);
            assert(num * mass * step_num * len == (num * mass) * (step_num * len)) by (nonlinear_arith);
        }
        let left: u128 = (num as u128) * (mass as u128);
        let right: u128 = (step_num as u128) * (len as u128);
        match left.checked_mul(right) {
            Some(n) => {
                proof {
                    lemma_div_denominator(n as int, den as int, step_den as int);
                    lemma_divide_thrice(n as int / (den * step_den), d as int, d as int, d as int);
                    assert(den * step_den >= 1) by (nonlinear_arith)
                        requires
                            den >= 1,
                            step_den >= 1,
                    ;
                    assert(d * d * d >= 1) by (nonlinear_arith)
                        requires
                            d >= 1,
                    ;
                    lemma_div_denominator(n as int, den * step_den, d * d * d);
                    assert((den * step_den) * (d * d * d) == den * step_den * d * d * d)
                        by (nonlinear_arith);
                }
                let q: u128 = n / (den as u128) / (step_den as u128) / (d as u128) / (d as u128) / (
                d as u128);
                if q <= LIMIT as u128 {
                    if s < 0 {
                        Ok(-(q as i64))
                    } else {
                        Ok(q as i64)
                    }
                } else {
                    Err(SimError::NonFinite)
                }
            },
            None => Err(SimError::NonFinite),
        }
    }

    /// The acceleration, over a step `dt`, of a body at `from` under the
    /// pull of a mass `mass` at `toward`. It points along the separation
    /// vector, at `toward`. Refused when it cannot be formed.
    pub fn acceleration_toward(&self, mass: u64, dt: Ratio, from: Vec2, toward: Vec2) -> (r: Result<
        Vec2,
        SimError,
    >)
        ensures
            self@.acceleration_defined(mass as nat, dt@, from@, toward@) ==> r is Ok && r->Ok_0@
                == self@.acceleration(mass as nat, dt@, from@, toward@),
            !self@.acceleration_defined(mass as nat, dt@, from@, toward@) ==> r == Err::<
                Vec2,
                SimError,
            >(SimError::NonFinite),
    {
        let d: u64 = self.reach(from, toward);
        let sx: i64 = toward.x() - from.x();
        let sy: i64 = toward.y() - from.y();
        match self.pull_component(mass, dt, sx, d) {
            Ok(ax) => match self.pull_component(mass, dt, sy, d) {
                Ok(ay) => Vec2::new(ax, ay),
                Err(e) => Err(e),
            },
            Err(e) => Err(e),
        }
    }
}

/// Two laws in the machine that stand for the same law are the same.
pub proof fn lemma_gravity_view_injective(a: Gravity, b: Gravity)
    requires
        a@ == b@,
    ensures
        a == b,
{
    lemma_ratio_view_injective(a.g, b.g);
}

} // verus!
