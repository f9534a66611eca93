use vstd::prelude::*;
use crate::error::SimError;

verus! {

/// A positive rational number: what a `Ratio` stands for.
pub struct Fraction {
    pub num: nat,
    pub den: nat,
}

impl Fraction {
    /// Numerator and denominator are both at least one.
    pub open spec fn valid(self) -> bool {
        self.num >= 1 && self.den >= 1
    }
}

/// A positive rational constant, such as the gravitational constant or a
/// time step, held as numerator and denominator.
#[derive(Clone, Copy, Debug, PartialEq, Eq, Structural)]
pub struct Ratio {
    num: u64,
    den: u64,
}

impl View for Ratio {
    type V = Fraction;

    closed spec fn view(&self) -> Fraction {
        Fraction { num: self.num as nat, den: self.den as nat }
    }
}

impl Ratio {
    #[verifier::type_invariant]
    pub open spec fn inv(&self) -> bool {
        self@.valid() && self@.num <= u64::MAX && self@.den <= u64::MAX
    }

    /// The ratio `num / den`, refused when either part is zero.
    pub fn new(num: u64, den: u64) -> (r: Result<Ratio, SimError>)
        ensures
            num >= 1 && den >= 1 ==> r is Ok && r->Ok_0@ == (Fraction { num: num as nat, den: den as nat }),
            num == 0 || den == 0 ==> r == Err::<Ratio, SimError>(SimError::InvalidConstant),
    {
        if num == 0 || den == 0 {
            Err(SimError::InvalidConstant)
        } else {
            Ok(Ratio { num, den })
        }
    }

    pub fn numerator(&self) -> (r: u64)
        ensures
            r == self@.num,
            r >= 1,
    {
        proof {
            use_type_invariant(self);
        }
        self.num
    }

    pub fn denominator(&self) -> (r: u64)
        ensures
            r == self@.den,
            r >= 1,
    {
        proof {
            use_type_invariant(self);
        }
        self.den
    }
}

/// Two ratios that stand for the same fraction are the same ratio.
pub proof fn lemma_ratio_view_injective(a: Ratio, b: Ratio)
    requires
        a@ == b@,
    ensures
        a == b,
{
}

} // verus!
