use steelcal::search::{
    current_table_name, find_best_gauge_match, find_index, gauge_search_numeric,
    normalize_gauge_search_token, resolve_gauge_index, smart_filter_gauge_indices,
};

fn keys(items: &[&str]) -> Vec<String> {
    items.iter().map(|s| s.to_string()).collect()
}

#[test]
fn gauge_lookup_prefers_exact_match() {
    let keys = vec!["10".to_string(), "16".to_string(), "18".to_string()];
    assert_eq!(find_best_gauge_match(&keys, "16"), Some(1));
}

#[test]
fn gauge_lookup_handles_fractional_numeric_equivalence() {
    let keys = vec!["7 GA".to_string(), "3/16".to_string(), "1/4".to_string()];
    assert_eq!(find_best_gauge_match(&keys, ".1875"), Some(1));
}

#[test]
fn gauge_lookup_uses_prefix_matching_before_contains() {
    let keys = vec!["3/16".to_string(), "13/16".to_string(), "1/4".to_string()];
    assert_eq!(find_best_gauge_match(&keys, "3/"), Some(0));
}

#[test]
fn resolve_gauge_index_prefers_typed_value_over_selected_index() {
    let keys = vec!["10".to_string(), "16".to_string(), "18".to_string()];
    assert_eq!(resolve_gauge_index(&keys, "18", 0), Some(2));
}

#[test]
fn resolve_gauge_index_falls_back_to_selected_index() {
    let keys = vec!["10".to_string(), "16".to_string(), "18".to_string()];
    assert_eq!(resolve_gauge_index(&keys, "", 1), Some(1));
}

#[test]
fn resolve_gauge_index_without_match_or_selection() {
    let ks = keys(&["10", "16"]);
    assert_eq!(resolve_gauge_index(&ks, "", 5), None);
    assert_eq!(resolve_gauge_index(&ks, "", -1), None);
    assert_eq!(resolve_gauge_index(&ks, "zzz", 0), Some(0));
}

#[test]
fn search_token_strips_units_quotes_and_spaces() {
    assert_eq!(normalize_gauge_search_token("  3/16 Inches "), "3/16");
    assert_eq!(normalize_gauge_search_token("1/4\""), "1/4");
    assert_eq!(normalize_gauge_search_token("0.25 in."), "0.25");
    assert_eq!(normalize_gauge_search_token("7 GA"), "7ga");
}

#[test]
fn search_numeric_reads_decimals_and_fractions() {
    assert_eq!(gauge_search_numeric("").is_none(), true);
    let (n, d) = gauge_search_numeric(".1875").unwrap();
    assert_eq!(n as f64 / d as f64, 0.1875);
    let (n, d) = gauge_search_numeric("3/16 inch").unwrap();
    assert_eq!(n as f64 / d as f64, 0.1875);
    assert!(gauge_search_numeric("gauge").is_none());
}

#[test]
fn smart_filter_lists_matches_then_nearby_numbers() {
    let ks = keys(&["10", "16", "18", "3/16", "13/16"]);
    assert_eq!(smart_filter_gauge_indices(&ks, "  "), vec![0, 1, 2, 3, 4]);
    // "16" is exact, "3/16" and "13/16" contain it.
    let listed = smart_filter_gauge_indices(&ks, "16");
    assert_eq!(listed[0], 1);
    assert!(listed.contains(&3) && listed.contains(&4));
    assert!(!listed.contains(&0));
    // No key contains "17": the numeric keys nearest 17 come first.
    let near = smart_filter_gauge_indices(&ks, "17");
    assert!(!near.is_empty());
    assert!(near[0] == 1 || near[0] == 2);
    assert!(smart_filter_gauge_indices(&ks, "xyz").is_empty());
}

#[test]
fn find_index_ignores_case() {
    let names = keys(&["ALUMINUM", "HR/HRPO/CR", "STAINLESS"]);
    assert_eq!(find_index(&names, "hr/hrpo/cr"), 1);
    assert_eq!(find_index(&names, "Stainless"), 2);
    assert_eq!(find_index(&names, "missing"), 0);
}

#[test]
fn current_table_name_reads_selection() {
    let names = keys(&["A", "B"]);
    assert_eq!(current_table_name(&names, 1), "B");
    assert_eq!(current_table_name(&names, 2), "");
    assert_eq!(current_table_name(&names, -1), "");
}
