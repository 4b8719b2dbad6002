use schema_derive::feature::{
    duplicate_all, pop_bound, pop_by_kind, pop_inline, pop_rename_all, pop_skip_bound, pop_symbol,
    split_for_symbol, Bound, Feature, FeatureKind, Inline, SkipBound, Symbol,
};
use schema_derive::shape::{is_flatten, is_not_skipped, SerdeValue};

fn kinds(features: &Vec<Feature>) -> Vec<FeatureKind> {
    features.iter().map(|f| f.kind()).collect()
}

fn sample() -> Vec<Feature> {
    vec![
        Feature::Other("title = \"x\"".to_string()),
        Feature::Symbol(Symbol("a :: Pet".to_string())),
        Feature::Inline(Inline(true)),
        Feature::Bound(Bound("T: Clone".to_string())),
        Feature::Symbol(Symbol("second".to_string())),
        Feature::SkipBound(SkipBound(false)),
        Feature::RenameAll("camelCase".to_string()),
    ]
}

#[test]
fn pop_symbol_takes_the_first_and_keeps_the_order() {
    let mut features = sample();
    assert_eq!(pop_symbol(&mut features), Some(Symbol("a :: Pet".to_string())));
    assert_eq!(
        kinds(&features),
        vec![
            FeatureKind::Other,
            FeatureKind::Inline,
            FeatureKind::Bound,
            FeatureKind::Symbol,
            FeatureKind::SkipBound,
            FeatureKind::RenameAll,
        ]
    );
    assert_eq!(pop_symbol(&mut features), Some(Symbol("second".to_string())));
    assert_eq!(pop_symbol(&mut features), None);
    assert_eq!(features.len(), 5);
}

#[test]
fn a_popped_feature_is_gone() {
    let mut features = sample();
    assert_eq!(pop_inline(&mut features), Some(Inline(true)));
    assert_eq!(pop_inline(&mut features), None);
    assert_eq!(pop_bound(&mut features), Some(Bound("T: Clone".to_string())));
    assert_eq!(pop_bound(&mut features), None);
    assert_eq!(pop_skip_bound(&mut features), Some(SkipBound(false)));
    assert_eq!(pop_skip_bound(&mut features), None);
    assert_eq!(pop_rename_all(&mut features), Some("camelCase".to_string()));
    assert_eq!(pop_rename_all(&mut features), None);
    assert_eq!(
        kinds(&features),
        vec![FeatureKind::Other, FeatureKind::Symbol, FeatureKind::Symbol]
    );
}

#[test]
fn pop_from_an_empty_bag_is_none() {
    let mut features: Vec<Feature> = Vec::new();
    assert!(pop_by_kind(&mut features, FeatureKind::Symbol).is_none());
    assert!(features.is_empty());
}

#[test]
fn pop_by_kind_of_a_missing_kind_changes_nothing() {
    let mut features = vec![Feature::Inline(Inline(false)), Feature::Other("x".to_string())];
    assert!(pop_by_kind(&mut features, FeatureKind::RenameAll).is_none());
    assert_eq!(kinds(&features), vec![FeatureKind::Inline, FeatureKind::Other]);
}

#[test]
fn duplicate_all_copies_each_feature() {
    let features = sample();
    let copy = duplicate_all(&features);
    assert_eq!(copy, features);
    assert_eq!(copy[1], Feature::Symbol(Symbol("a :: Pet".to_string())));
    assert_eq!(copy[3], Feature::Bound(Bound("T: Clone".to_string())));
}

#[test]
fn split_for_symbol_parts_symbols_from_the_rest() {
    let (symbols, others) = split_for_symbol(sample());
    assert_eq!(
        symbols,
        vec![
            Feature::Symbol(Symbol("a :: Pet".to_string())),
            Feature::Symbol(Symbol("second".to_string())),
        ]
    );
    assert_eq!(
        kinds(&others),
        vec![
            FeatureKind::Other,
            FeatureKind::Inline,
            FeatureKind::Bound,
            FeatureKind::SkipBound,
            FeatureKind::RenameAll,
        ]
    );
}

#[test]
fn split_for_symbol_of_nothing() {
    let (symbols, others) = split_for_symbol(Vec::new());
    assert!(symbols.is_empty());
    assert!(others.is_empty());
}

#[test]
fn a_field_without_a_rule_is_kept_and_not_flattened() {
    assert!(is_not_skipped(None));
    assert!(!is_flatten(None));
}

#[test]
fn a_rule_decides_skip_and_flatten() {
    let skipped = SerdeValue { skip: true, flatten: false };
    let flattened = SerdeValue { skip: false, flatten: true };
    assert!(!is_not_skipped(Some(&skipped)));
    assert!(!is_flatten(Some(&skipped)));
    assert!(is_not_skipped(Some(&flattened)));
    assert!(is_flatten(Some(&flattened)));
}
