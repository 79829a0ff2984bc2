use vstd::prelude::*;
use vstd::arithmetic::power2::{pow2, lemma_pow2_pos, lemma_pow2_unfold, lemma_pow2_strictly_increases, lemma_pow2_adds, lemma2_to64};

verus! {

/// Two to the power 23: one more than the largest fraction field of a
/// single-precision number.
pub const FRACTION_SPAN: u32 = 0x80_0000;

/// The single-precision bit pattern of positive infinity. Every smaller
/// pattern is that of a finite number that is not negative.
pub const INFINITY_BITS: u32 = 0x7F80_0000;

/// The bit pattern of the distance from which a match is blended with the
/// colour that was asked for: the single-precision number nearest to 8.936723.
pub const BLEND_THRESHOLD_BITS: u32 = 0x410E_FCD1;

/// Whether a bit pattern is that of a finite single-precision number with a
/// clear sign bit.
pub open spec fn is_finite_pattern(bits: u32) -> bool {
    bits < INFINITY_BITS
}

/// The number that a finite, non-negative single-precision bit pattern
/// stands for, counted in units of 2^-149. That unit is the smallest positive
/// single-precision number, so every such number is a whole count of it.
///
/// With exponent field 0 the number is `fraction * 2^-149`; with exponent
/// field `e > 0` it is `(2^23 + fraction) * 2^(e - 150)`.
pub open spec fn units_of(bits: u32) -> nat {
    let exponent = bits as nat / FRACTION_SPAN as nat;
    let fraction = bits as nat % FRACTION_SPAN as nat;
    if exponent == 0 {
        fraction
    } else {
        (FRACTION_SPAN as nat + fraction) * pow2((exponent - 1) as nat)
    }
}

/// The blending threshold in units of 2^-149.
pub open spec fn blend_threshold() -> nat {
    units_of(BLEND_THRESHOLD_BITS)
}

/// A perceptual distance: a finite number that is not negative, held as its
/// single-precision bit pattern. Its view is the number itself in units of
/// 2^-149.
#[derive(Clone, Copy, Debug, PartialEq, Eq, Structural)]
pub struct Distance {
    bits: u32,
}

impl View for Distance {
    type V = nat;

    open spec fn view(&self) -> nat {
        units_of(self.pattern())
    }
}

/// Among finite patterns a larger pattern stands for a larger number.
pub proof fn lemma_units_strictly_increasing(a: u32, b: u32)
    requires
        a < b,
        is_finite_pattern(b),
    ensures
        units_of(a) < units_of(b),
{
    let span: int = FRACTION_SPAN as int;
    let ea: int = a as int / span;
    let ma: int = a as int % span;
    let eb: int = b as int / span;
    let mb: int = b as int % span;
    assert(ea <= eb);
    if ea == eb {
        assert(ma < mb);
        if ea > 0 {
            let p: int = pow2((ea - 1) as nat) as int;
            lemma_pow2_pos((ea - 1) as nat);
            assert((span + ma) * p < (span + mb) * p) by (nonlinear_arith)
                requires
                    ma < mb,
                    p > 0,
            ;
        }
    } else {
        let pb: int = pow2((eb - 1) as nat) as int;
        lemma_pow2_pos((eb - 1) as nat);
        assert(span * pb <= (span + mb) * pb) by (nonlinear_arith)
            requires
                mb >= 0,
                pb > 0,
        ;
        if ea == 0 {
            assert(span <= span * pb) by (nonlinear_arith)
                requires
                    span > 0,
                    pb >= 1,
            ;
        } else {
            let pa: int = pow2((ea - 1) as nat) as int;
            lemma_pow2_pos((ea - 1) as nat);
            lemma_pow2_unfold(ea as nat);
            if ea < eb - 1 {
                lemma_pow2_strictly_increases(ea as nat, (eb - 1) as nat);
            }
            assert(2 * pa <= pb);
            assert((span + ma) * pa < span * pb) by (nonlinear_arith)
                requires
                    0 <= ma < span,
                    pa > 0,
                    2 * pa <= pb,
            ;
        }
    }
}

/// Finite patterns are ordered as the numbers they stand for.
pub proof fn lemma_order_of_patterns(a: u32, b: u32)
    requires
        is_finite_pattern(a),
        is_finite_pattern(b),
    ensures
        a < b <==> units_of(a) < units_of(b),
        a == b <==> units_of(a) == units_of(b),
{
    if a < b {
        lemma_units_strictly_increasing(a, b);
    } else if b < a {
        lemma_units_strictly_increasing(b, a);
    }
}

/// The blending threshold is 9370833 * 2^-20, and no single-precision number
/// lies nearer to 8.936723: in the binade of 8 neighbouring numbers are
/// 2^-20 apart, and the threshold differs from 8.936723 by less than half of
/// that. Both sides of the comparison are scaled by a million.
pub proof fn lemma_blend_threshold_value()
    ensures
        blend_threshold() == 9_370_833 * pow2(129),
        8_936_723 * pow2(149) - 1_000_000 * pow2(128) < 1_000_000 * blend_threshold(),
        1_000_000 * blend_threshold() < 8_936_723 * pow2(149) + 1_000_000 * pow2(128),
{
    let half: int = pow2(128) as int;
    lemma_pow2_pos(128);
    lemma_pow2_unfold(129);
    lemma_pow2_adds(20, 129);
    lemma2_to64();
    assert(blend_threshold() == 9_370_833 * (2 * half));
    assert(pow2(149) == 0x10_0000 * (2 * half));
    assert(8_936_723 * (0x10_0000 * (2 * half)) - 1_000_000 * half < 1_000_000 * (9_370_833 * (2
        * half))) by (nonlinear_arith)
        requires
            half > 0,
    ;
    assert(1_000_000 * (9_370_833 * (2 * half)) < 8_936_723 * (0x10_0000 * (2 * half)) + 1_000_000
        * half) by (nonlinear_arith)
        requires
            half > 0,
    ;
}

impl Distance {
    #[verifier::type_invariant]
    spec fn finite(self) -> bool {
        is_finite_pattern(self.bits)
    }

    /// The bit pattern that holds this distance.
    pub closed spec fn pattern(self) -> u32 {
        self.bits
    }

    /// A distance is nothing but its bit pattern.
    pub proof fn lemma_pattern_determines(self, other: Distance)
        ensures
            self == other <==> self.pattern() == other.pattern(),
    {
    }

    /// Takes a single-precision bit pattern as a distance. A pattern with the
    /// sign bit set (that of negative zero among them), that of infinity and
    /// those that stand for no number are turned down.
    pub fn from_bits(bits: u32) -> (made: Option<Distance>)
        ensures
            made is Some <==> is_finite_pattern(bits),
            made matches Some(d) ==> d.pattern() == bits && d@ == units_of(bits),
    {
        if bits < INFINITY_BITS {
            Some(Distance { bits })
        } else {
            None
        }
    }

    /// The distance of a colour from itself.
    pub fn zero() -> (d: Distance)
        ensures
            d.pattern() == 0,
            d@ == 0,
    {
        Distance { bits: 0 }
    }

    /// The single-precision bit pattern of this distance.
    pub fn to_bits(&self) -> (bits: u32)
        ensures
            bits == self.pattern(),
            is_finite_pattern(bits),
    {
        proof {
            use_type_invariant(self);
        }
        self.bits
    }

    /// Whether this distance is strictly smaller than another.
    pub fn is_below(&self, other: &Distance) -> (below: bool)
        ensures
            below == (self@ < other@),
            below == (self.pattern() < other.pattern()),
    {
        proof {
            use_type_invariant(self);
            use_type_invariant(other);
            lemma_order_of_patterns(self.bits, other.bits);
        }
        self.bits < other.bits
    }

    /// Whether this distance is at or beyond the blending threshold.
    pub fn reaches_blend_threshold(&self) -> (reached: bool)
        ensures
            reached == (self@ >= blend_threshold()),
            reached == (self.pattern() >= BLEND_THRESHOLD_BITS),
    {
        proof {
            use_type_invariant(self);
            lemma_order_of_patterns(self.bits, BLEND_THRESHOLD_BITS);
        }
        self.bits >= BLEND_THRESHOLD_BITS
    }
}

} // verus!
