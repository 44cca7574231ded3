use screen_agg::config::{
    Adjustment, GeneAggregation, GeneAggregationSelection, GeoPAGGWeightConfigEnum, IncArgs,
    InputArgs, ModelChoice, Normalization, SgrnaColumns, TestStrategy,
};

#[test]
fn test_enum() {
    let rra = GeneAggregationSelection::RRA;
    let inc = GeneAggregationSelection::Inc;

    assert_eq!(
        GeneAggregationSelection::from_str("RRA", true).unwrap(),
        rra
    );
    assert_eq!(
        GeneAggregationSelection::from_str("Inc", true).unwrap(),
        inc
    );
}

#[test]
fn test_enum_case_insensitive() {
    let rra = GeneAggregationSelection::RRA;
    let inc = GeneAggregationSelection::Inc;

    assert_eq!(
        GeneAggregationSelection::from_str("rra", true).unwrap(),
        rra
    );
    assert_eq!(
        GeneAggregationSelection::from_str("inc", true).unwrap(),
        inc
    );
}

#[test]
fn test_enum_invalid() {
    assert!(GeneAggregationSelection::from_str("invalid", true).is_err());
}

#[test]
fn test_enum_rra_string() {
    let rra = GeneAggregationSelection::RRA;
    assert_eq!(format!("{:?}", rra), "RRA");
}

#[test]
fn test_enum_inc_string() {
    let inc = GeneAggregationSelection::Inc;
    assert_eq!(format!("{:?}", inc), "Inc");
}

#[test]
fn test_enum_geopagg() {
    let geo = GeneAggregationSelection::GeoPAGG;
    assert_eq!(
        GeneAggregationSelection::from_str("geopagg", true).unwrap(),
        geo
    );
    assert_eq!(
        GeneAggregationSelection::from_str("GeoPAGG", true).unwrap(),
        geo
    );
}

#[test]
fn test_enum_case_sensitive_rejects() {
    assert!(GeneAggregationSelection::from_str("RRA", false).is_err());
    assert!(GeneAggregationSelection::from_str("rra", false).is_ok());
    let err = GeneAggregationSelection::from_str("ABC", false).unwrap_err();
    assert_eq!(err, "ABC".to_string());
}

#[test]
fn test_labels_and_defaults() {
    assert_eq!(Normalization::MedianRatio.label(), "median-ratio");
    assert_eq!(Normalization::Total.label(), "total");
    assert_eq!(TestStrategy::default().label(), "cm");
    assert_eq!(TestStrategy::SampleGeometricMean.label(), "gm");
    assert_eq!(TestStrategy::SampleWeightedGeometricMean.label(), "wgm");
    assert!(matches!(
        GeoPAGGWeightConfigEnum::default(),
        GeoPAGGWeightConfigEnum::DropFirst
    ));
    assert_eq!(format!("{:?}", Adjustment::Bh), "Bh");
    assert_eq!(format!("{:?}", ModelChoice::Wols), "Wols");
}

#[test]
fn test_config_payloads() {
    let agg = GeneAggregation::Inc {
        token: "non-targeting".to_string(),
        fdr_key: 0.05f64.to_bits(),
        group_size: 3,
        n_draws: 100,
        use_product: true,
    };
    match agg {
        GeneAggregation::Inc { token, fdr_key, group_size, n_draws, use_product } => {
            assert_eq!(token, "non-targeting");
            assert_eq!(f64::from_bits(fdr_key), 0.05);
            assert_eq!(group_size, 3);
            assert_eq!(n_draws, 100);
            assert!(use_product);
        },
        _ => panic!("expected the INC payload"),
    }
    let input = InputArgs {
        input: "counts.tsv".to_string(),
        controls: vec!["c1".to_string()],
        treatments: vec!["t1".to_string()],
    };
    assert_eq!(input.controls.len(), 1);
    let inc = IncArgs { inc_group_size: 5, inc_product: false, n_draws: 100 };
    assert_eq!(inc.inc_group_size, 5);
    let columns = SgrnaColumns {
        pvalue_low: "pvalue_low".to_string(),
        pvalue_high: "pvalue_high".to_string(),
        control_mean: "control".to_string(),
        treatment_mean: "treatment".to_string(),
        sgrna: "sgrna".to_string(),
        gene: "gene".to_string(),
    };
    assert_eq!(columns.gene, "gene");
}
