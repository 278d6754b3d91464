use ipeenv::version::{compare_versions_desc, version_at_least, version_at_most};
use ipeenv::order::{name_keys, sorted_order, version_keys};
use std::cmp::Ordering;

#[test]
fn at_least_pads_missing_components_with_zero() {
    assert!(version_at_least("8.2", "8.2.0"));
    assert!(version_at_least("8.2.0", "8.2"));
    assert!(version_at_least("8.3", "8.2"));
    assert!(!version_at_least("7.4.33", "8.1"));
    assert!(version_at_least("10.0", "9.9"));
}

#[test]
fn at_least_treats_unparsable_components_as_zero() {
    assert!(version_at_least("8.x", "8.0"));
    assert!(!version_at_least("8.x", "8.1"));
}

#[test]
fn at_most_is_at_least_reversed() {
    assert!(version_at_most("7.4", "8.0"));
    assert!(!version_at_most("8.0.1", "8.0"));
    assert!(version_at_most("8.0", "8.0"));
}

#[test]
fn compare_versions_desc_lists_highest_first() {
    assert_eq!(compare_versions_desc("8.3", "8.2"), Ordering::Less);
    assert_eq!(compare_versions_desc("8.2", "8.3"), Ordering::Greater);
    assert_eq!(compare_versions_desc("8.2", "8.2"), Ordering::Equal);
    assert_eq!(compare_versions_desc("10.0", "9.9"), Ordering::Less);
    assert_eq!(compare_versions_desc("8.2.1", "8.2"), Ordering::Less);
}

#[test]
fn sorted_order_is_stable_and_descending_for_versions() {
    let versions = vec![
        "7.4".to_string(),
        "8.3".to_string(),
        "8.02".to_string(),
        "8.2".to_string(),
        "5.6".to_string(),
    ];
    let keys = version_keys(&versions);
    let order = sorted_order(&keys, true);
    assert_eq!(order, vec![1, 2, 3, 0, 4]);
}

#[test]
fn sorted_order_of_names_is_string_order() {
    let names = vec!["loja".to_string(), "Blog".to_string(), "api".to_string(), "loja".to_string()];
    let keys = name_keys(&names);
    let order = sorted_order(&keys, false);
    assert_eq!(order, vec![1, 2, 0, 3]);
}

#[test]
fn sorted_order_of_nothing_is_empty() {
    let keys: Vec<Vec<u32>> = Vec::new();
    assert!(sorted_order(&keys, true).is_empty());
}
