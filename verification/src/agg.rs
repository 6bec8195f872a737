//! Aggregations that can be computed on top of a raw metric value.

use vstd::prelude::*;

verus! {

/// Possible metric aggregations
#[derive(Clone, Copy, Debug, PartialEq, Eq, PartialOrd, Ord, Structural)]
pub enum Aggregation {
    Raw,
    Min,
    Max,
    Ratio,
}

/// Bit of an aggregation in an aggregation set.
pub open spec fn spec_mask(a: Aggregation) -> u8 {
    match a {
        Aggregation::Raw => 0x01,
        Aggregation::Min => 0x02,
        Aggregation::Max => 0x04,
        Aggregation::Ratio => 0x08,
    }
}

/// All aggregations in their natural order.
pub open spec fn all_aggregations() -> Seq<Aggregation> {
    seq![Aggregation::Raw, Aggregation::Min, Aggregation::Max, Aggregation::Ratio]
}

/// Name used in metric specifications.
pub open spec fn aggregation_name(a: Aggregation) -> Seq<char> {
    match a {
        Aggregation::Raw => "raw"@,
        Aggregation::Min => "min"@,
        Aggregation::Max => "max"@,
        Aggregation::Ratio => "ratio"@,
    }
}

impl Aggregation {
    /// Bit of the aggregation in an aggregation set.
    pub fn mask(self) -> (m: u8)
        ensures
            m == spec_mask(self),
    {
        match self {
            Aggregation::Raw => 0x01,
            Aggregation::Min => 0x02,
            Aggregation::Max => 0x04,
            Aggregation::Ratio => 0x08,
        }
    }

    /// All the aggregations, ordered.
    pub fn iter() -> (v: Vec<Aggregation>)
        ensures
            v@ == all_aggregations(),
    {
        let v = vec![Aggregation::Raw, Aggregation::Min, Aggregation::Max, Aggregation::Ratio];
        assert(v@ =~= all_aggregations());
        v
    }

    /// Aggregation from its name.
    pub fn from_str(s: &str) -> (r: Result<Aggregation, ()>)
        ensures
            r matches Ok(a) ==> aggregation_name(a) == s@,
            r is Err <==> (forall|a: Aggregation| aggregation_name(a) != s@),
    {
        if crate::strings::str_eq(s, "raw") {
            assert(aggregation_name(Aggregation::Raw) == s@);
            Ok(Aggregation::Raw)
        } else if crate::strings::str_eq(s, "min") {
            assert(aggregation_name(Aggregation::Min) == s@);
            Ok(Aggregation::Min)
        } else if crate::strings::str_eq(s, "max") {
            assert(aggregation_name(Aggregation::Max) == s@);
            Ok(Aggregation::Max)
        } else if crate::strings::str_eq(s, "ratio") {
            assert(aggregation_name(Aggregation::Ratio) == s@);
            Ok(Aggregation::Ratio)
        } else {
            proof {
                assert forall|a: Aggregation| aggregation_name(a) != s@ by {
                    match a {
                        Aggregation::Raw => {},
                        Aggregation::Min => {},
                        Aggregation::Max => {},
                        Aggregation::Ratio => {},
                    }
                }
            }
            Err(())
        }
    }
}

/// A set of aggregations
#[derive(Clone, Copy, Debug)]
pub struct AggregationSet(pub u8);

/// Whether the bit of an aggregation is set in a mask.
pub open spec fn mask_has(bits: u8, a: Aggregation) -> bool {
    bits & spec_mask(a) != 0
}

impl View for AggregationSet {
    type V = Set<Aggregation>;

    open spec fn view(&self) -> Set<Aggregation> {
        Set::new(|a: Aggregation| mask_has(self.0, a))
    }
}

proof fn lemma_or_mask(bits: u8, a: Aggregation, b: Aggregation)
    ensures
        mask_has(bits | spec_mask(a), b) == (mask_has(bits, b) || a == b),
{
    let x = bits;
    match a {
        Aggregation::Raw => match b {
            Aggregation::Raw => { assert((x | 1u8) & 1u8 != 0) by (bit_vector); },
            Aggregation::Min => { assert(((x | 1u8) & 2u8 != 0) == (x & 2u8 != 0)) by (bit_vector); },
            Aggregation::Max => { assert(((x | 1u8) & 4u8 != 0) == (x & 4u8 != 0)) by (bit_vector); },
            Aggregation::Ratio => { assert(((x | 1u8) & 8u8 != 0) == (x & 8u8 != 0)) by (bit_vector); },
        },
        Aggregation::Min => match b {
            Aggregation::Raw => { assert(((x | 2u8) & 1u8 != 0) == (x & 1u8 != 0)) by (bit_vector); },
            Aggregation::Min => { assert((x | 2u8) & 2u8 != 0) by (bit_vector); },
            Aggregation::Max => { assert(((x | 2u8) & 4u8 != 0) == (x & 4u8 != 0)) by (bit_vector); },
            Aggregation::Ratio => { assert(((x | 2u8) & 8u8 != 0) == (x & 8u8 != 0)) by (bit_vector); },
        },
        Aggregation::Max => match b {
            Aggregation::Raw => { assert(((x | 4u8) & 1u8 != 0) == (x & 1u8 != 0)) by (bit_vector); },
            Aggregation::Min => { assert(((x | 4u8) & 2u8 != 0) == (x & 2u8 != 0)) by (bit_vector); },
            Aggregation::Max => { assert((x | 4u8) & 4u8 != 0) by (bit_vector); },
            Aggregation::Ratio => { assert(((x | 4u8) & 8u8 != 0) == (x & 8u8 != 0)) by (bit_vector); },
        },
        Aggregation::Ratio => match b {
            Aggregation::Raw => { assert(((x | 8u8) & 1u8 != 0) == (x & 1u8 != 0)) by (bit_vector); },
            Aggregation::Min => { assert(((x | 8u8) & 2u8 != 0) == (x & 2u8 != 0)) by (bit_vector); },
            Aggregation::Max => { assert(((x | 8u8) & 4u8 != 0) == (x & 4u8 != 0)) by (bit_vector); },
            Aggregation::Ratio => { assert((x | 8u8) & 8u8 != 0) by (bit_vector); },
        },
    }
}

proof fn lemma_zero_mask(a: Aggregation)
    ensures
        !mask_has(0u8, a),
{
    assert(0u8 & 1u8 == 0 && 0u8 & 2u8 == 0 && 0u8 & 4u8 == 0 && 0u8 & 8u8 == 0) by (bit_vector);
}

impl AggregationSet {
    /// An empty set.
    pub fn new() -> (s: AggregationSet)
        ensures
            s@ == Set::<Aggregation>::empty(),
    {
        let s = AggregationSet(0);
        assert forall|a: Aggregation| !s@.contains(a) by {
            lemma_zero_mask(a);
        }
        assert(s@ =~= Set::<Aggregation>::empty());
        s
    }

    /// Whether the aggregation is in the set.
    pub fn has(self, variant: Aggregation) -> (b: bool)
        ensures
            b == self@.contains(variant),
    {
        self.0 & variant.mask() != 0
    }

    /// Add an aggregation to the set.
    pub fn set(&mut self, variant: Aggregation)
        ensures
            final(self)@ == old(self)@.insert(variant),
    {
        let ghost before = self.0;
        self.0 = self.0 | variant.mask();
        proof {
            assert forall|b: Aggregation| #[trigger] mask_has(self.0, b) == (mask_has(before, b) || variant == b) by {
                lemma_or_mask(before, variant, b);
            }
            assert(self@ =~= old(self)@.insert(variant));
        }
    }
}

/// Adding an aggregation never removes another one, and the added one is
/// reported present afterwards.
pub proof fn law_set_then_has(s: AggregationSet, a: Aggregation, b: Aggregation)
    ensures
        AggregationSet(s.0 | spec_mask(a))@.contains(b) <==> (s@.contains(b) || a == b),
{
    lemma_or_mask(s.0, a, b);
}

} // verus!
