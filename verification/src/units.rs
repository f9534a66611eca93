use vstd::prelude::*;
use vstd::arithmetic::div_mod::lemma_div_is_ordered;
use vstd::arithmetic::div_mod::lemma_fundamental_div_mod;
use vstd::arithmetic::div_mod::lemma_mod_bound;
use vstd::arithmetic::div_mod::lemma_fundamental_div_mod_converse;
use crate::error::SimError;
use crate::vector::Vec2;

verus! {

/// The pixel that holds the coordinate `v` when a pixel is `units_per_pixel`
/// simulation units wide: the quotient rounded toward minus infinity, so that
/// pixel columns are equally wide on both sides of the origin.
pub open spec fn pixel_of(units_per_pixel: nat, v: int) -> int {
    v / (units_per_pixel as int)
}

/// Rounding down a negative number is rounding up its magnitude.
pub proof fn lemma_floor_of_negative(c: int, k: int)
    requires
        c < 0,
        k >= 1,
    ensures
        c / k == -((-c - 1) / k + 1),
{
    let n = -c - 1;
    let a = n / k;
    let b = n % k;
    lemma_fundamental_div_mod(n, k);
    assert(0 <= b < k);
    assert(c == (-(a + 1)) * k + (k - 1 - b)) by (nonlinear_arith)
        requires
            n == k * a + b,
            c == -n - 1,
    ;
    lemma_fundamental_div_mod_converse(c, k, -(a + 1), k - 1 - b);
}

/// Pixels keep the order of coordinates.
pub proof fn lemma_pixels_monotone(units_per_pixel: nat, a: int, b: int)
    requires
        units_per_pixel >= 1,
        a <= b,
    ensures
        pixel_of(units_per_pixel, a) <= pixel_of(units_per_pixel, b),
{
    lemma_div_is_ordered(a, b, units_per_pixel as int);
}

/// Moving a coordinate by whole pixels moves its pixel by as many, on
/// either side of the origin.
pub proof fn lemma_pixels_shift(units_per_pixel: nat, v: int, pixels: int)
    requires
        units_per_pixel >= 1,
    ensures
        pixel_of(units_per_pixel, v + pixels * units_per_pixel) == pixel_of(units_per_pixel, v)
            + pixels,
{
    let k = units_per_pixel as int;
    lemma_fundamental_div_mod(v, k);
    lemma_mod_bound(v, k);
    assert(v + pixels * k == (v / k + pixels) * k + v % k) by (nonlinear_arith)
        requires
            v == k * (v / k) + v % k,
    ;
    lemma_fundamental_div_mod_converse(v + pixels * k, k, v / k + pixels, v % k);
}

/// The one linear scale between simulation units and pixels. Both axes share
/// it, so shapes keep their proportions on screen.
#[derive(Clone, Copy, Debug, PartialEq, Eq, Structural)]
pub struct Scale {
    units_per_pixel: u64,
}

impl Scale {
    /// How many simulation units one pixel spans.
    pub closed spec fn units(&self) -> nat {
        self.units_per_pixel as nat
    }

    #[verifier::type_invariant]
    pub open spec fn inv(&self) -> bool {
        1 <= self.units() <= u64::MAX
    }

    /// A scale of `units_per_pixel` simulation units to the pixel, refused when zero.
    pub fn new(units_per_pixel: u64) -> (r: Result<Scale, SimError>)
        ensures
            units_per_pixel >= 1 ==> r is Ok && r->Ok_0.units() == units_per_pixel,
            units_per_pixel == 0 ==> r == Err::<Scale, SimError>(SimError::InvalidConstant),
    {
        if units_per_pixel == 0 {
            Err(SimError::InvalidConstant)
        } else {
            Ok(Scale { units_per_pixel })
        }
    }

    pub fn units_per_pixel(&self) -> (r: u64)
        ensures
            r == self.units(),
            r >= 1,
    {
        proof {
            use_type_invariant(self);
        }
        self.units_per_pixel
    }

    /// A length in pixels, rounded down.
    pub fn length_to_pixels(&self, length: u64) -> (r: u64)
        ensures
            r == length as nat / self.units(),
    {
        proof {
            use_type_invariant(self);
        }
        length / self.units_per_pixel
    }

    /// The pixel that holds a coordinate.
    pub fn to_pixels(&self, coordinate: i64) -> (r: i64)
        ensures
            r == pixel_of(self.units(), coordinate as int),
    {
        proof {
            use_type_invariant(self);
        }
        let k: u64 = self.units_per_pixel;
        if coordinate >= 0 {
            let q: u64 = (coordinate as u64) / k;
            q as i64
        } else {
            let below: u64 = (-(coordinate + 1)) as u64;
            let q: u64 = below / k;
            proof {
                lemma_floor_of_negative(coordinate as int, k as int);
            }
            -(q as i64) - 1
        }
    }

    /// The pixel that holds a point: both coordinates under the same scale.
    pub fn project(&self, point: Vec2) -> (r: (i64, i64))
        ensures
            r.0 == pixel_of(self.units(), point@.x),
            r.1 == pixel_of(self.units(), point@.y),
    {
        (self.to_pixels(point.x()), self.to_pixels(point.y()))
    }
}

/// Two scales of the same width are the same scale.
pub proof fn lemma_scale_units_injective(a: Scale, b: Scale)
    requires
        a.units() == b.units(),
    ensures
        a == b,
{
}

} // verus!
