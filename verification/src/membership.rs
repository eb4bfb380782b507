//! The three membership degrees and the fuzzy operators on them.

use vstd::prelude::*;

verus! {

/// Ternary membership degree: Low (-1), Medium (0), High (+1).
#[derive(Debug, Clone, Copy, PartialEq, Eq, Structural, Hash)]
pub enum TernaryMembership {
    Low,
    Medium,
    High,
}

impl TernaryMembership {
    /// The numeric value of a degree: -1, 0 or +1.
    pub open spec fn spec_value(&self) -> i32 {
        match *self {
            TernaryMembership::Low => -1i32,
            TernaryMembership::Medium => 0i32,
            TernaryMembership::High => 1i32,
        }
    }

    /// The degree whose numeric value is `v`, if there is one.
    pub open spec fn spec_from_i32(v: i32) -> Option<TernaryMembership> {
        if v == -1 {
            Some(TernaryMembership::Low)
        } else if v == 0 {
            Some(TernaryMembership::Medium)
        } else if v == 1 {
            Some(TernaryMembership::High)
        } else {
            None
        }
    }

    #[verifier::when_used_as_spec(spec_value)]
    pub fn value(&self) -> (r: i32)
        ensures
            r == self.spec_value(),
            -1 <= r <= 1,
    {
        match *self {
            TernaryMembership::Low => -1,
            TernaryMembership::Medium => 0,
            TernaryMembership::High => 1,
        }
    }

    pub fn from_i32(v: i32) -> (r: Option<TernaryMembership>)
        ensures
            r == Self::spec_from_i32(v),
            r is Some <==> -1 <= v <= 1,
            r matches Some(m) ==> m.spec_value() == v,
    {
        match v {
            -1 => Some(TernaryMembership::Low),
            0 => Some(TernaryMembership::Medium),
            1 => Some(TernaryMembership::High),
            _ => None,
        }
    }

    /// All three degrees, from lowest to highest.
    pub fn all() -> (r: [TernaryMembership; 3])
        ensures
            r@ == seq![TernaryMembership::Low, TernaryMembership::Medium, TernaryMembership::High],
    {
        [TernaryMembership::Low, TernaryMembership::Medium, TernaryMembership::High]
    }
}

/// Fuzzy AND: the lower of the two degrees.
pub open spec fn spec_tnorm(a: TernaryMembership, b: TernaryMembership) -> TernaryMembership {
    if a.spec_value() <= b.spec_value() { a } else { b }
}

/// Fuzzy OR: the higher of the two degrees.
pub open spec fn spec_tconorm(a: TernaryMembership, b: TernaryMembership) -> TernaryMembership {
    if a.spec_value() >= b.spec_value() { a } else { b }
}

/// Fuzzy NOT: Low and High swap, Medium stays.
pub open spec fn spec_complement(a: TernaryMembership) -> TernaryMembership {
    match a {
        TernaryMembership::Low => TernaryMembership::High,
        TernaryMembership::Medium => TernaryMembership::Medium,
        TernaryMembership::High => TernaryMembership::Low,
    }
}

/// T-norm adapted for ternary (fuzzy AND).
pub fn ternary_tnorm(a: TernaryMembership, b: TernaryMembership) -> (r: TernaryMembership)
    ensures
        r == spec_tnorm(a, b),
        r.spec_value() == if a.spec_value() <= b.spec_value() { a.spec_value() } else { b.spec_value() },
{
    if a.value() <= b.value() { a } else { b }
}

/// T-conorm adapted for ternary (fuzzy OR).
pub fn ternary_tconorm(a: TernaryMembership, b: TernaryMembership) -> (r: TernaryMembership)
    ensures
        r == spec_tconorm(a, b),
        r.spec_value() == if a.spec_value() >= b.spec_value() { a.spec_value() } else { b.spec_value() },
{
    if a.value() >= b.value() { a } else { b }
}

/// Ternary complement (fuzzy NOT).
pub fn ternary_complement(a: TernaryMembership) -> (r: TernaryMembership)
    ensures
        r == spec_complement(a),
        r.spec_value() == -a.spec_value(),
{
    match a {
        TernaryMembership::Low => TernaryMembership::High,
        TernaryMembership::Medium => TernaryMembership::Medium,
        TernaryMembership::High => TernaryMembership::Low,
    }
}

/// Numeric conversion is a bijection between the degrees and {-1, 0, 1}:
/// converting a degree to its value and back gives the degree, and two
/// degrees with the same value are the same degree.
pub proof fn lemma_value_roundtrip(a: TernaryMembership, b: TernaryMembership)
    ensures
        TernaryMembership::spec_from_i32(a.spec_value()) == Some(a),
        a.spec_value() == b.spec_value() ==> a == b,
{
}

/// Fuzzy AND is the minimum: it is commutative, associative and idempotent,
/// High is its identity and Low absorbs everything.
pub proof fn lemma_tnorm_laws(a: TernaryMembership, b: TernaryMembership, c: TernaryMembership)
    ensures
        spec_tnorm(a, b) == spec_tnorm(b, a),
        spec_tnorm(spec_tnorm(a, b), c) == spec_tnorm(a, spec_tnorm(b, c)),
        spec_tnorm(a, a) == a,
        spec_tnorm(a, TernaryMembership::High) == a,
        spec_tnorm(a, TernaryMembership::Low) == TernaryMembership::Low,
        spec_tnorm(a, b).spec_value() <= a.spec_value(),
        spec_tnorm(a, b).spec_value() <= b.spec_value(),
{
}

/// Fuzzy OR is the maximum: it is commutative, associative and idempotent,
/// Low is its identity and High absorbs everything.
pub proof fn lemma_tconorm_laws(a: TernaryMembership, b: TernaryMembership, c: TernaryMembership)
    ensures
        spec_tconorm(a, b) == spec_tconorm(b, a),
        spec_tconorm(spec_tconorm(a, b), c) == spec_tconorm(a, spec_tconorm(b, c)),
        spec_tconorm(a, a) == a,
        spec_tconorm(a, TernaryMembership::Low) == a,
        spec_tconorm(a, TernaryMembership::High) == TernaryMembership::High,
        spec_tconorm(a, b).spec_value() >= a.spec_value(),
        spec_tconorm(a, b).spec_value() >= b.spec_value(),
{
}

/// AND and OR absorb each other and distribute over each other.
pub proof fn lemma_absorption_distributivity(
    a: TernaryMembership,
    b: TernaryMembership,
    c: TernaryMembership,
)
    ensures
        spec_tnorm(a, spec_tconorm(a, b)) == a,
        spec_tconorm(a, spec_tnorm(a, b)) == a,
        spec_tnorm(a, spec_tconorm(b, c)) == spec_tconorm(spec_tnorm(a, b), spec_tnorm(a, c)),
        spec_tconorm(a, spec_tnorm(b, c)) == spec_tnorm(spec_tconorm(a, b), spec_tconorm(a, c)),
{
}

/// NOT is an involution that reverses the order of the degrees, and it
/// turns AND into OR and OR into AND (De Morgan).
pub proof fn lemma_complement_laws(a: TernaryMembership, b: TernaryMembership)
    ensures
        spec_complement(spec_complement(a)) == a,
        spec_complement(a).spec_value() == -a.spec_value(),
        a.spec_value() <= b.spec_value() ==> spec_complement(b).spec_value() <= spec_complement(
            a,
        ).spec_value(),
        spec_complement(spec_tnorm(a, b)) == spec_tconorm(spec_complement(a), spec_complement(b)),
        spec_complement(spec_tconorm(a, b)) == spec_tnorm(spec_complement(a), spec_complement(b)),
{
}

} // verus!
