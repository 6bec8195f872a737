use oprs::agg::{Aggregation, AggregationSet};

#[test]
fn agg_test_each_aggregation() {
    for variant in Aggregation::iter() {
        let mut aggs = AggregationSet::new();
        assert!(!aggs.has(variant), "{:?}: should not be set", variant);
        aggs.set(variant);
        assert!(aggs.has(variant), "{:?}: is not set", variant);
        Aggregation::iter().into_iter().for_each(|other| {
            assert!(
                other.mask() == variant.mask() || !aggs.has(other),
                "{:?}: only {:?} shoult be set",
                other,
                variant
            );
        });
    }
}

#[test]
fn agg_test_multiples() {
    let mut aggs = AggregationSet::new();
    aggs.set(Aggregation::Min);
    aggs.set(Aggregation::Ratio);
    assert!(aggs.has(Aggregation::Min));
    assert!(aggs.has(Aggregation::Ratio));
    assert!(!aggs.has(Aggregation::Raw));
    assert!(!aggs.has(Aggregation::Max));
}

#[test]
fn aggregation_names_round_trip() {
    assert_eq!(Ok(Aggregation::Raw), Aggregation::from_str("raw"));
    assert_eq!(Ok(Aggregation::Min), Aggregation::from_str("min"));
    assert_eq!(Ok(Aggregation::Max), Aggregation::from_str("max"));
    assert_eq!(Ok(Aggregation::Ratio), Aggregation::from_str("ratio"));
    assert!(Aggregation::from_str("none").is_err());
}

#[test]
fn aggregation_order_follows_masks() {
    assert!(Aggregation::Raw < Aggregation::Min);
    assert!(Aggregation::Min < Aggregation::Max);
    assert!(Aggregation::Max < Aggregation::Ratio);
}
