//! Fractions, and the ratios that hold them in machine numbers.

use vstd::prelude::*;

verus! {

/// A fraction of two natural numbers.
pub struct Fraction {
    pub numerator: nat,
    pub denominator: nat,
}

/// Whether the fraction `a` is at least the fraction `b`, both with a
/// denominator above zero.
pub open spec fn fraction_ge(a: Fraction, b: Fraction) -> bool {
    a.numerator * b.denominator >= b.numerator * a.denominator
}

/// Whether the fraction `a` is more than the fraction `b`.
pub open spec fn fraction_gt(a: Fraction, b: Fraction) -> bool {
    a.numerator * b.denominator > b.numerator * a.denominator
}

/// What is more than something that is at least a third is more than the third.
pub proof fn lemma_fraction_order(a: Fraction, b: Fraction, c: Fraction)
    requires
        a.denominator > 0,
        b.denominator > 0,
        c.denominator > 0,
        fraction_gt(a, b),
        fraction_ge(b, c),
    ensures
        fraction_gt(a, c),
{
    let (an, ad) = (a.numerator as int, a.denominator as int);
    let (bn, bd) = (b.numerator as int, b.denominator as int);
    let (cn, cd) = (c.numerator as int, c.denominator as int);
    assert(an * cd > cn * ad) by (nonlinear_arith)
        requires
            ad > 0,
            bd > 0,
            cd > 0,
            an >= 0,
            bn >= 0,
            cn >= 0,
            an * bd > bn * ad,
            bn * cd >= cn * bd,
    {
        assert((an * bd) * cd > (bn * ad) * cd);
        assert((bn * cd) * ad >= (cn * bd) * ad);
        assert((an * cd) * bd == (an * bd) * cd);
        assert((bn * ad) * cd == (bn * cd) * ad);
        assert((cn * bd) * ad == (cn * ad) * bd);
        assert((an * cd) * bd > (cn * ad) * bd);
    }
}

/// What is at least something that is at least a third is at least the third.
pub proof fn lemma_fraction_chain(a: Fraction, b: Fraction, c: Fraction)
    requires
        a.denominator > 0,
        b.denominator > 0,
        c.denominator > 0,
        fraction_ge(a, b),
        fraction_ge(b, c),
    ensures
        fraction_ge(a, c),
{
    let (an, ad) = (a.numerator as int, a.denominator as int);
    let (bn, bd) = (b.numerator as int, b.denominator as int);
    let (cn, cd) = (c.numerator as int, c.denominator as int);
    assert(an * cd >= cn * ad) by (nonlinear_arith)
        requires
            ad > 0,
            bd > 0,
            cd > 0,
            an >= 0,
            bn >= 0,
            cn >= 0,
            an * bd >= bn * ad,
            bn * cd >= cn * bd,
    {
        assert((an * bd) * cd >= (bn * ad) * cd);
        assert((bn * cd) * ad >= (cn * bd) * ad);
        assert((an * cd) * bd == (an * bd) * cd);
        assert((bn * ad) * cd == (bn * cd) * ad);
        assert((cn * bd) * ad == (cn * ad) * bd);
        assert((an * cd) * bd >= (cn * ad) * bd);
    }
}

/// A score or a threshold: a fraction with a denominator above zero.
#[derive(Clone, Copy, Debug)]
pub struct Ratio {
    numerator: u64,
    /// The denominator; a zero here stands for one, so that every value is a fraction.
    denominator: u64,
}

impl View for Ratio {
    type V = Fraction;

    closed spec fn view(&self) -> Fraction {
        Fraction {
            numerator: self.numerator as nat,
            denominator: if self.denominator == 0 {
                1
            } else {
                self.denominator as nat
            },
        }
    }
}

impl Ratio {
    /// The ratio of `numerator` to `denominator`; none where the denominator is zero.
    pub fn new(numerator: u64, denominator: u64) -> (ratio: Option<Ratio>)
        ensures
            ratio is Some <==> denominator > 0,
            ratio matches Some(ratio) ==> ratio@ == (Fraction {
                numerator: numerator as nat,
                denominator: denominator as nat,
            }),
    {
        if denominator == 0 {
            None
        } else {
            Some(Ratio { numerator, denominator })
        }
    }

    /// One.
    pub fn one() -> (ratio: Ratio)
        ensures
            ratio@ == (Fraction { numerator: 1, denominator: 1 }),
    {
        Ratio { numerator: 1, denominator: 1 }
    }

    /// One half.
    pub fn half() -> (ratio: Ratio)
        ensures
            ratio@ == (Fraction { numerator: 1, denominator: 2 }),
    {
        Ratio { numerator: 1, denominator: 2 }
    }

    /// The numerator.
    pub fn numerator(&self) -> (numerator: u64)
        ensures
            numerator == self@.numerator,
    {
        self.numerator
    }

    /// The denominator, which is above zero.
    pub fn denominator(&self) -> (denominator: u64)
        ensures
            denominator == self@.denominator,
            denominator > 0,
    {
        if self.denominator == 0 {
            1
        } else {
            self.denominator
        }
    }

    /// The denominator of a ratio is above zero.
    pub proof fn lemma_denominator(self)
        ensures
            self@.denominator > 0,
    {
    }

    /// Whether this ratio is at least `other`.
    pub fn at_least(&self, other: &Ratio) -> (holds: bool)
        ensures
            holds == fraction_ge(self@, other@),
    {
        product(self.numerator, other.denominator()) >= product(
            other.numerator,
            self.denominator(),
        )
    }
}

/// The product of two numbers.
fn product(a: u64, b: u64) -> (p: u128)
    ensures
        p == a * b,
{
    assert(a * b <= 0xffff_ffff_ffff_ffff * 0xffff_ffff_ffff_ffff) by (nonlinear_arith)
        requires
            a <= 0xffff_ffff_ffff_ffff,
            b <= 0xffff_ffff_ffff_ffff,
    ;
    (a as u128) * (b as u128)
}

/// The fractions that `scores` stand for.
pub open spec fn ratios_view(scores: Seq<Ratio>) -> Seq<Fraction> {
    scores.map_values(|score: Ratio| score@)
}

} // verus!
