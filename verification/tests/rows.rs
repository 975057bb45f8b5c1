use warehouse::variation_rows::{VariationInput, VariationRows};

fn row(d: &str, p: &str, s: &str, price: &str) -> VariationInput {
    VariationInput { dims: d.into(), pack: p.into(), standard: s.into(), price: price.into() }
}

#[test]
fn the_form_starts_with_one_empty_row() {
    let rows = VariationRows::new();
    assert_eq!(rows.len(), 1);
    assert_eq!(rows.rows()[0].dims, "");
}

#[test]
fn rows_are_added_edited_and_removed() {
    let mut rows = VariationRows::new();
    rows.add_row();
    rows.set_row(1, row("M8", "", "DIN", "3.5"));
    rows.set_row(5, row("x", "x", "x", "x"));
    rows.set_row(-1, row("x", "x", "x", "x"));
    assert_eq!(rows.len(), 2);
    assert_eq!(rows.rows()[1].dims, "M8");
    rows.remove_row(7);
    rows.remove_row(-1);
    assert_eq!(rows.len(), 2);
    rows.remove_row(0);
    assert_eq!(rows.len(), 1);
    assert_eq!(rows.rows()[0].standard, "DIN");
}

#[test]
fn editing_then_removing_is_removing() {
    let mut a = VariationRows::new();
    a.add_row();
    a.set_row(0, row("1", "2", "3", "4"));
    a.remove_row(0);
    let mut b = VariationRows::new();
    b.add_row();
    b.remove_row(0);
    assert_eq!(a.len(), b.len());
    assert_eq!(a.rows()[0].dims, b.rows()[0].dims);
}

#[test]
fn clearing_resets_to_one_empty_row() {
    let mut rows = VariationRows::new();
    rows.set_row(0, row("M8", "", "", ""));
    rows.add_row();
    rows.clear();
    assert_eq!(rows.len(), 1);
    assert_eq!(rows.rows()[0].dims, "");
}

#[test]
fn empty_fields_are_left_out_of_the_variations() {
    let mut rows = VariationRows::new();
    rows.set_row(0, row("M8", "", "DIN", "3.5"));
    let f = rows.fields();
    assert_eq!(f.len(), 1);
    assert_eq!(f[0].dimensions, Some("M8".to_string()));
    assert_eq!(f[0].packaging, None);
    assert_eq!(f[0].standard, Some("DIN".to_string()));
    assert_eq!(f[0].price, "3.5");
}
