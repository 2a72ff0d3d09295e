use std::cmp::Ordering;

use steelcal::catalog::builtin_gauge_tables;
use steelcal::gauges::{
    canonical_gauge_key, lookup_psf, merge_tables, nearest_keys, normalize_source_material_name,
    normalize_table_name, sort_entries, GaugeEntry, GaugeTable, GaugeTables, PsfLookup,
    DEFAULT_GAUGE_KEY, DEFAULT_TABLE_NAME,
};
use steelcal::keys::{key_to_numeric, read_fraction};
use steelcal::order::compare_keys;

fn bits(v: f64) -> u64 {
    v.to_bits()
}

fn psf(table: &GaugeTable, key: &str) -> Option<f64> {
    table.get(key).map(f64::from_bits)
}

fn approx_eq(left: f64, right: f64, tolerance: f64) -> bool {
    (left - right).abs() < tolerance
}

#[test]
fn normalize_table_name_case_insensitive() {
    assert_eq!(normalize_table_name("hr/hrpo/cr"), "HR/HRPO/CR");
    assert_eq!(normalize_table_name("Hr/Hrpo/Cr"), "HR/HRPO/CR");
    assert_eq!(normalize_table_name("HR/HRPO/CR"), "HR/HRPO/CR");
}

#[test]
fn normalize_table_name_alias_case_insensitive() {
    assert_eq!(normalize_table_name("hr/hrpo/cr/eg"), "HR/HRPO/CR");
    assert_eq!(normalize_table_name("HR/HRPO/CR/EG"), "HR/HRPO/CR");
    assert_eq!(normalize_table_name("Hr/Hrpo/Cr/Eg"), "HR/HRPO/CR");
}

#[test]
fn normalize_table_name_floor_plate_case_insensitive() {
    assert_eq!(normalize_table_name("hr floor plate"), "HR FLOOR PLATE");
    assert_eq!(normalize_table_name("HR Floor Plate"), "HR FLOOR PLATE");
    assert_eq!(normalize_table_name("HDP (Mill Plate)"), "HR FLOOR PLATE");
    assert_eq!(normalize_table_name("hdp (mill plate)"), "HR FLOOR PLATE");
}

#[test]
fn normalize_table_name_keeps_unknown_names_trimmed() {
    assert_eq!(normalize_table_name("  Custom Table "), "Custom Table");
    assert_eq!(normalize_table_name(""), "");
}

#[test]
fn normalize_source_material_names() {
    assert_eq!(normalize_source_material_name("CRS"), "HR/HRPO/CR");
    assert_eq!(normalize_source_material_name(" GALVS "), "GALV/JK/BOND");
    assert_eq!(normalize_source_material_name("AL1"), "ALUMINUM");
    assert_eq!(normalize_source_material_name("HDP"), "HR FLOOR PLATE");
    assert_eq!(normalize_source_material_name("stainless"), "STAINLESS");
    assert_eq!(normalize_source_material_name("crs"), "crs");
}

#[test]
fn key_to_numeric_kinds_and_values() {
    let k = key_to_numeric("1-1/2");
    assert_eq!(k.kind, 1);
    assert_eq!(k.numerator as f64 / k.denominator as f64, 1.5);
    let k = key_to_numeric("1-3/4");
    assert_eq!(k.kind, 1);
    assert_eq!(k.numerator as f64 / k.denominator as f64, 1.75);
    let k = key_to_numeric("16");
    assert_eq!(k.kind, 0);
    assert_eq!(k.numerator as f64 / k.denominator as f64, 16.0);
    let k = key_to_numeric("3/8");
    assert_eq!(k.kind, 1);
    assert_eq!(k.numerator as f64 / k.denominator as f64, 0.375);
    let k = key_to_numeric(" 0.1875 inch");
    assert_eq!(k.kind, 1);
    assert_eq!(k.numerator as f64 / k.denominator as f64, 0.1875);
    assert_eq!(key_to_numeric("7 GA").kind, 2);
    assert_eq!(key_to_numeric("1/0").kind, 2);
}

#[test]
fn compare_keys_orders_integers_then_fractions_then_text() {
    assert_eq!(compare_keys("10", "9"), Ordering::Greater);
    assert_eq!(compare_keys("9", "10"), Ordering::Less);
    assert_eq!(compare_keys("30", "3/16"), Ordering::Less);
    assert_eq!(compare_keys("3/16", "1/4"), Ordering::Less);
    assert_eq!(compare_keys("1/2", "0.5"), Ordering::Greater);
    assert_eq!(compare_keys("ABC", "1/4"), Ordering::Greater);
    assert_eq!(compare_keys("16", "16"), Ordering::Equal);
}

#[test]
fn mixed_fractions_sort_numerically() {
    let mut entries: Vec<GaugeEntry> = [
        ("2-1/2", 102.1),
        ("1-1/4", 51.05),
        ("1-3/4", 71.47),
        ("1-1/2", 61.26),
        ("3/4", 30.63),
        ("1", 40.84),
    ]
    .iter()
    .map(|(k, v)| GaugeEntry { key: k.to_string(), psf_bits: bits(*v) })
    .collect();
    sort_entries(&mut entries);
    let sorted: Vec<&str> = entries.iter().map(|e| e.key.as_str()).collect();
    assert_eq!(sorted, vec!["1", "3/4", "1-1/4", "1-1/2", "1-3/4", "2-1/2"]);
}

#[test]
fn builtin_tables_exist() {
    let tables = builtin_gauge_tables();
    assert_eq!(
        tables.keys(),
        vec![
            "ALUMINIZED",
            "ALUMINUM",
            "GALV/JK/BOND",
            "HOT ROLLED PLATE",
            "HR FLOOR PLATE",
            "HR/HRPO/CR",
            "STAINLESS"
        ]
    );
    assert_eq!(tables.get("HR/HRPO/CR").unwrap().entries().len(), 51);
    assert_eq!(tables.get("GALV/JK/BOND").unwrap().entries().len(), 21);
    assert_eq!(tables.get("ALUMINUM").unwrap().entries().len(), 33);
    assert_eq!(psf(tables.get(DEFAULT_TABLE_NAME).unwrap(), DEFAULT_GAUGE_KEY), Some(2.5));
    assert_eq!(psf(tables.get("GALV/JK/BOND").unwrap(), "16"), Some(2.65625));
}

#[test]
fn hot_rolled_plate_has_all_override_entries() {
    let tables = builtin_gauge_tables();
    let table = tables.get("HOT ROLLED PLATE").unwrap();
    let expected: &[(&str, f64)] = &[
        ("1", 40.84),
        ("1-1/2", 61.26),
        ("1-1/4", 51.05),
        ("1-3/4", 71.47),
        ("1-3/8", 56.1),
        ("1/2", 20.4192),
        ("1/4", 10.21),
        ("11/32", 13.476672),
        ("13/16", 33.17),
        ("15/32", 18.867341),
        ("2", 81.68),
        ("2-1/2", 102.1),
        ("23/64", 14.29344),
        ("29/64", 18.581472),
        ("3", 122.52),
        ("3/16", 7.66),
        ("3/4", 30.63),
        ("3/8", 15.31),
        ("5/16", 12.76),
        ("5/8", 25.52),
        ("7/16", 17.87),
        ("7/8", 35.73),
        ("9/16", 22.97),
        ("9/32", 11.924813),
    ];
    for (key, expected_psf) in expected {
        let actual = psf(table, key);
        assert!(actual.is_some(), "missing key '{key}'");
        assert!(approx_eq(actual.unwrap(), *expected_psf, 1e-6));
    }
    assert_eq!(table.entries().len(), expected.len());
    // Whole numbers first, then the rest by value.
    let keys: Vec<&str> = table.entries().iter().map(|e| e.key.as_str()).collect();
    assert_eq!(&keys[..3], &["1", "2", "3"]);
    assert_eq!(keys[3], "3/16");
    assert_eq!(keys[keys.len() - 1], "2-1/2");
}

#[test]
fn canonical_gauge_key_uses_tolerance_not_epsilon() {
    let tables = builtin_gauge_tables();
    assert_eq!(canonical_gauge_key(&tables, DEFAULT_TABLE_NAME, "16.0"), Some("16".to_string()));
}

#[test]
fn canonical_gauge_key_rejects_non_integer_decimal() {
    let tables = builtin_gauge_tables();
    assert_eq!(canonical_gauge_key(&tables, DEFAULT_TABLE_NAME, "16.5"), None);
}

#[test]
fn canonical_gauge_key_edge_cases() {
    let tables = builtin_gauge_tables();
    assert_eq!(canonical_gauge_key(&tables, "hr/hrpo/cr", " 16 "), Some("16".to_string()));
    assert_eq!(canonical_gauge_key(&tables, DEFAULT_TABLE_NAME, "016"), Some("16".to_string()));
    assert_eq!(canonical_gauge_key(&tables, DEFAULT_TABLE_NAME, "+16."), Some("16".to_string()));
    assert_eq!(canonical_gauge_key(&tables, DEFAULT_TABLE_NAME, "1.00"), Some("1.00".to_string()));
    assert_eq!(canonical_gauge_key(&tables, DEFAULT_TABLE_NAME, "3/16"), Some("3/16".to_string()));
    assert_eq!(canonical_gauge_key(&tables, "NO SUCH TABLE", "16"), None);
    assert_eq!(canonical_gauge_key(&tables, DEFAULT_TABLE_NAME, "99"), None);
}

#[test]
fn get_psf_integer_lookup_via_tolerance() {
    let tables = builtin_gauge_tables();
    match lookup_psf(&tables, DEFAULT_TABLE_NAME, "16.0") {
        PsfLookup::Found { used_key, psf_bits } => {
            assert_eq!(used_key, "16");
            assert_eq!(f64::from_bits(psf_bits), 2.5);
        }
        _ => panic!("expected a match"),
    }
}

#[test]
fn get_psf_non_integer_decimal_no_match() {
    let tables = builtin_gauge_tables();
    assert!(matches!(lookup_psf(&tables, DEFAULT_TABLE_NAME, "16.1"), PsfLookup::Missing));
    assert!(matches!(lookup_psf(&tables, "NOPE", "16"), PsfLookup::NoTable));
}

#[test]
fn get_psf_case_insensitive_table() {
    let tables = builtin_gauge_tables();
    match lookup_psf(&tables, "hr/hrpo/cr", "16") {
        PsfLookup::Found { psf_bits, .. } => assert_eq!(f64::from_bits(psf_bits), 2.5),
        _ => panic!("expected a match"),
    }
}

#[test]
fn get_psf_case_insensitive_hr_floor_plate() {
    let tables = builtin_gauge_tables();
    match lookup_psf(&tables, "hr floor plate", "1/4") {
        PsfLookup::Found { psf_bits, .. } => assert_eq!(f64::from_bits(psf_bits), 11.26),
        _ => panic!("expected a match"),
    }
}

#[test]
fn hot_rolled_plate_lookup_mixed_fraction_key() {
    let tables = builtin_gauge_tables();
    match lookup_psf(&tables, "HOT ROLLED PLATE", "1-1/2") {
        PsfLookup::Found { used_key, psf_bits } => {
            assert_eq!(used_key, "1-1/2");
            assert_eq!(f64::from_bits(psf_bits), 61.26);
        }
        _ => panic!("expected a match"),
    }
}

#[test]
fn nearest_keys_ranks_by_distance_then_key() {
    let pairs = vec![
        (bits(3.0), "c".to_string()),
        (bits(1.0), "b".to_string()),
        (bits(1.0), "a".to_string()),
        (bits(0.5), "z".to_string()),
        (bits(9.0), "y".to_string()),
    ];
    assert_eq!(nearest_keys(&pairs), vec!["z", "a", "b"]);
    assert_eq!(nearest_keys(&pairs[..2].to_vec()), vec!["b", "c"]);
    assert!(nearest_keys(&Vec::new()).is_empty());
}

fn table(rows: &[(&str, f64)]) -> GaugeTable {
    let raw: Vec<(&str, u64)> = rows.iter().map(|(k, v)| (*k, bits(*v))).collect();
    GaugeTable::new(&raw)
}

#[test]
fn merge_tables_preserves_unmatched_builtin_keys() {
    let mut builtins = GaugeTables::new();
    builtins.insert("TABLE_A".to_string(), table(&[("10", 5.0), ("12", 4.0), ("14", 3.0)]));
    let mut overrides = GaugeTables::new();
    overrides.insert("TABLE_A".to_string(), table(&[("12", 4.5)]));
    merge_tables(&mut builtins, &overrides);
    let merged = builtins.get("TABLE_A").unwrap();
    assert!(approx_eq(psf(merged, "10").unwrap(), 5.0, 1e-9));
    assert!(approx_eq(psf(merged, "12").unwrap(), 4.5, 1e-9));
    assert!(approx_eq(psf(merged, "14").unwrap(), 3.0, 1e-9));
}

#[test]
fn merge_tables_updates_existing_entries_override_wins() {
    let mut builtins = GaugeTables::new();
    builtins.insert("TABLE_A".to_string(), table(&[("10", 5.0), ("12", 4.0)]));
    let mut overrides = GaugeTables::new();
    overrides.insert("TABLE_A".to_string(), table(&[("10", 5.5), ("12", 4.5)]));
    merge_tables(&mut builtins, &overrides);
    let merged = builtins.get("TABLE_A").unwrap();
    assert!(approx_eq(psf(merged, "10").unwrap(), 5.5, 1e-9));
    assert!(approx_eq(psf(merged, "12").unwrap(), 4.5, 1e-9));
}

#[test]
fn merge_tables_adds_new_entries_from_override() {
    let mut builtins = GaugeTables::new();
    builtins.insert("TABLE_A".to_string(), table(&[("10", 5.0)]));
    let mut overrides = GaugeTables::new();
    overrides.insert("TABLE_A".to_string(), table(&[("12", 4.5), ("14", 3.5)]));
    merge_tables(&mut builtins, &overrides);
    let merged = builtins.get("TABLE_A").unwrap();
    assert_eq!(merged.entries().len(), 3);
    assert!(approx_eq(psf(merged, "10").unwrap(), 5.0, 1e-9));
    assert!(approx_eq(psf(merged, "12").unwrap(), 4.5, 1e-9));
    assert!(approx_eq(psf(merged, "14").unwrap(), 3.5, 1e-9));
}

#[test]
fn merge_tables_adds_new_table_from_override() {
    let mut builtins = GaugeTables::new();
    builtins.insert("TABLE_A".to_string(), table(&[("10", 5.0)]));
    let mut overrides = GaugeTables::new();
    overrides.insert("NEW_TABLE".to_string(), table(&[("8", 7.0), ("10", 5.5)]));
    merge_tables(&mut builtins, &overrides);
    assert!(builtins.contains_key("TABLE_A"));
    assert!(approx_eq(psf(builtins.get("TABLE_A").unwrap(), "10").unwrap(), 5.0, 1e-9));
    assert!(builtins.contains_key("NEW_TABLE"));
    let new_table = builtins.get("NEW_TABLE").unwrap();
    assert!(approx_eq(psf(new_table, "8").unwrap(), 7.0, 1e-9));
    assert!(approx_eq(psf(new_table, "10").unwrap(), 5.5, 1e-9));
}

#[test]
fn merge_tables_empty_override_does_nothing() {
    let mut builtins = GaugeTables::new();
    builtins.insert("TABLE_A".to_string(), table(&[("10", 5.0), ("12", 4.0)]));
    let overrides = GaugeTables::new();
    merge_tables(&mut builtins, &overrides);
    let t = builtins.get("TABLE_A").unwrap();
    assert_eq!(t.entries().len(), 2);
    assert!(approx_eq(psf(t, "10").unwrap(), 5.0, 1e-9));
    assert!(approx_eq(psf(t, "12").unwrap(), 4.0, 1e-9));
}

#[test]
fn merge_tables_entries_remain_sorted_after_merge() {
    let mut builtins = GaugeTables::new();
    builtins.insert("TABLE_A".to_string(), table(&[("10", 5.0), ("14", 3.0)]));
    let mut overrides = GaugeTables::new();
    overrides.insert("TABLE_A".to_string(), table(&[("12", 4.0)]));
    merge_tables(&mut builtins, &overrides);
    let merged = builtins.get("TABLE_A").unwrap();
    let keys: Vec<&str> = merged.entries().iter().map(|e| e.key.as_str()).collect();
    assert_eq!(keys, vec!["10", "12", "14"]);
}

#[test]
fn merge_tables_override_subset_keeps_entry_count() {
    let mut builtins = builtin_gauge_tables();
    let orig = builtins.get("HR/HRPO/CR").unwrap().entries().len();
    let mut overrides = GaugeTables::new();
    overrides.insert("HR/HRPO/CR".to_string(), table(&[("16", 2.6), ("3/16", 7.7)]));
    merge_tables(&mut builtins, &overrides);
    let merged = builtins.get("HR/HRPO/CR").unwrap();
    assert_eq!(merged.entries().len(), orig);
    assert_eq!(psf(merged, "16"), Some(2.6));
    assert_eq!(psf(merged, "18"), Some(2.0));
}

#[test]
fn gauge_table_accessors() {
    let t = table(&[("12", 4.0), ("10", 5.0)]);
    assert_eq!(t.first_key(), Some("10"));
    assert_eq!(psf(&t, "12"), Some(4.0));
    assert_eq!(psf(&t, "13"), None);
    let copy = t.duplicate();
    assert_eq!(copy.entries().len(), 2);
    let empty = GaugeTable::new(&[]);
    assert_eq!(empty.first_key(), None);
}

/// The value of a fraction or mixed fraction, if the text is one.
fn fraction(text: &str) -> Option<f64> {
    read_fraction(&text.chars().collect()).map(|(n, d)| n as f64 / d as f64)
}

fn key_value(key: &str) -> (u8, f64) {
    let k = key_to_numeric(key);
    (k.kind, k.numerator as f64 / k.denominator as f64)
}

#[test]
fn parse_fraction_to_float_simple_fraction() {
    assert!(approx_eq(fraction("1/2").unwrap(), 0.5, 1e-9));
    assert!(approx_eq(fraction("3/4").unwrap(), 0.75, 1e-9));
    assert!(approx_eq(fraction("7/8").unwrap(), 0.875, 1e-9));
}

#[test]
fn parse_fraction_to_float_mixed_fractions() {
    assert!(approx_eq(fraction("1-1/2").unwrap(), 1.5, 1e-9));
    assert!(approx_eq(fraction("1-1/4").unwrap(), 1.25, 1e-9));
    assert!(approx_eq(fraction("1-3/4").unwrap(), 1.75, 1e-9));
    assert!(approx_eq(fraction("1-3/8").unwrap(), 1.375, 1e-9));
    assert!(approx_eq(fraction("2-1/2").unwrap(), 2.5, 1e-9));
}

#[test]
fn parse_fraction_to_float_zero_denominator() {
    assert!(fraction("1/0").is_none());
    assert!(fraction("1-1/0").is_none());
}

#[test]
fn parse_fraction_to_float_no_fraction() {
    assert!(fraction("16").is_none());
    assert!(fraction("1.5").is_none());
}

#[test]
fn key_to_numeric_mixed_fraction() {
    let (kind, value) = key_value("1-1/2");
    assert_eq!(kind, 1);
    assert!(approx_eq(value, 1.5, 1e-9));
}

#[test]
fn key_to_numeric_mixed_fraction_1_3_4() {
    let (kind, value) = key_value("1-3/4");
    assert_eq!(kind, 1);
    assert!(approx_eq(value, 1.75, 1e-9));
}

#[test]
fn key_to_numeric_mixed_fraction_2_1_2() {
    let (kind, value) = key_value("2-1/2");
    assert_eq!(kind, 1);
    assert!(approx_eq(value, 2.5, 1e-9));
}

#[test]
fn key_to_numeric_simple_integer() {
    let (kind, value) = key_value("16");
    assert_eq!(kind, 0);
    assert!(approx_eq(value, 16.0, 1e-9));
}

#[test]
fn key_to_numeric_simple_fraction() {
    let (kind, value) = key_value("3/8");
    assert_eq!(kind, 1);
    assert!(approx_eq(value, 0.375, 1e-9));
}

#[test]
fn hot_rolled_plate_table_exists() {
    let tables = builtin_gauge_tables();
    assert!(tables.contains_key("HOT ROLLED PLATE"), "HOT ROLLED PLATE table must exist in builtins");
}

fn found_psf(result: PsfLookup) -> Option<f64> {
    match result {
        PsfLookup::Found { psf_bits, .. } => Some(f64::from_bits(psf_bits)),
        _ => None,
    }
}

#[test]
fn hot_rolled_plate_lookup_simple_fraction_key() {
    let tables = builtin_gauge_tables();
    assert_eq!(found_psf(lookup_psf(&tables, "HOT ROLLED PLATE", "3/8")), Some(15.31));
}

#[test]
fn hot_rolled_plate_lookup_integer_key() {
    let tables = builtin_gauge_tables();
    assert_eq!(found_psf(lookup_psf(&tables, "HOT ROLLED PLATE", "1")), Some(40.84));
}

#[test]
fn exponent_keys_read_as_numbers() {
    let (kind, value) = key_value("1e1");
    assert_eq!(kind, 0);
    assert!(approx_eq(value, 10.0, 1e-9));
    let (kind, value) = key_value("2.5E1");
    assert_eq!(kind, 0);
    assert!(approx_eq(value, 25.0, 1e-9));
    let (kind, value) = key_value("1.5e-1");
    assert_eq!(kind, 1);
    assert!(approx_eq(value, 0.15, 1e-9));
    let (kind, value) = key_value("3/1e1");
    assert_eq!(kind, 1);
    assert!(approx_eq(value, 0.3, 1e-9));
    assert_eq!(compare_keys("1e1", "20"), Ordering::Less);
    assert_eq!(compare_keys("1e1", "9"), Ordering::Greater);
    // Not a number: the exponent needs digits.
    assert_eq!(key_to_numeric("1e").kind, 2);
    assert_eq!(key_to_numeric("e5").kind, 2);
}
