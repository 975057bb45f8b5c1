use warehouse::catalog::{any_filled, packaging_parts};

fn parts(s: &str) -> Option<(String, String)> {
    packaging_parts(s).map(|p| (p.quantity, p.unit))
}

#[test]
fn packaging_splits_into_quantity_and_unit() {
    assert_eq!(parts(" 25kg/sac "), Some(("25".into(), "kg".into())));
    assert_eq!(parts("2.5 l"), Some(("2.5".into(), "l".into())));
    assert_eq!(parts("100 buc / cutie"), Some(("100".into(), "buc".into())));
    assert_eq!(parts("cutie"), Some(("".into(), "cutie".into())));
    assert_eq!(parts("50"), Some(("50".into(), "".into())));
    assert_eq!(parts("   "), None);
    assert_eq!(parts(""), None);
}

#[test]
fn optional_columns_show_when_some_value_is_filled() {
    assert!(!any_filled(&vec![]));
    assert!(!any_filled(&vec![None, Some(String::new())]));
    assert!(any_filled(&vec![None, Some("M8".to_string())]));
}

#[test]
fn the_quantity_is_the_numeric_start_of_the_trimmed_packaging() {
    for s in ["  12.5kg", "x12", "1.2.3 m/x", "\u{a0}7\u{a0}"] {
        let p = packaging_parts(s).unwrap();
        assert!(p.quantity.chars().all(|c| c.is_ascii_digit() || c == '.'));
        assert!(s.trim().starts_with(&p.quantity));
    }
}
