use warehouse::cart::{Cart, VariationChoice};

fn choice(id: i32, dims: &str, price_total: &str) -> VariationChoice {
    VariationChoice {
        id,
        dimensions: dims.to_string(),
        packaging: "sac".to_string(),
        standard: "EN".to_string(),
        price_total: price_total.to_string(),
    }
}

fn product() -> Vec<VariationChoice> {
    vec![choice(7, "10x10", "12.50 RON"), choice(8, "20x20", "  3 RON"), choice(9, "", "")]
}

#[test]
fn adding_a_new_variation_appends_a_line_with_one_unit() {
    let mut cart = Cart::new();
    assert!(cart.add("Surub", &product(), 7));
    assert_eq!(cart.len(), 1);
    let line = &cart.lines()[0];
    assert_eq!(line.variation_id, 7);
    assert_eq!(line.product_name, "Surub");
    assert_eq!(line.dimensions, "10x10");
    assert_eq!(line.packaging, "sac");
    assert_eq!(line.standard, "EN");
    assert_eq!(line.price_text, "12.50");
    assert_eq!(line.quantity, 1);
}

#[test]
fn adding_an_existing_variation_raises_its_quantity() {
    let mut cart = Cart::new();
    cart.add("Surub", &product(), 7);
    cart.add("Surub", &product(), 8);
    assert!(cart.add("Surub", &product(), 7));
    assert_eq!(cart.len(), 2);
    assert_eq!(cart.quantity_of(7), Some(2));
    assert_eq!(cart.quantity_of(8), Some(1));
    assert_eq!(cart.lines()[1].price_text, "3");
}

#[test]
fn adding_a_variation_the_product_lacks_changes_nothing() {
    let mut cart = Cart::new();
    cart.add("Surub", &product(), 7);
    assert!(!cart.add("Surub", &product(), 99));
    assert_eq!(cart.len(), 1);
    assert_eq!(cart.quantity_of(99), None);
}

#[test]
fn a_blank_price_gives_an_empty_price_text() {
    let mut cart = Cart::new();
    cart.add("Piulita", &product(), 9);
    assert_eq!(cart.lines()[0].price_text, "");
}

#[test]
fn removing_right_after_a_first_add_restores_the_cart() {
    let mut cart = Cart::new();
    cart.add("Surub", &product(), 8);
    cart.add("Surub", &product(), 7);
    cart.remove(7);
    assert_eq!(cart.len(), 1);
    assert_eq!(cart.lines()[0].variation_id, 8);
    assert_eq!(cart.position(7), None);
}

#[test]
fn removing_an_absent_variation_changes_nothing() {
    let mut cart = Cart::new();
    cart.add("Surub", &product(), 8);
    cart.remove(7);
    assert_eq!(cart.len(), 1);
}

#[test]
fn setting_a_quantity_twice_keeps_the_last() {
    let mut cart = Cart::new();
    cart.add("Surub", &product(), 8);
    cart.set_quantity(8, 5);
    cart.set_quantity(8, 3);
    assert_eq!(cart.quantity_of(8), Some(3));
    cart.set_quantity(7, 4);
    assert_eq!(cart.len(), 1);
}

#[test]
fn clearing_empties_the_cart_and_no_order_is_made() {
    let mut cart = Cart::new();
    assert!(cart.order_lines().is_none());
    cart.add("Surub", &product(), 8);
    cart.clear();
    assert_eq!(cart.len(), 0);
    assert!(cart.order_lines().is_none());
}

#[test]
fn order_lines_follow_the_cart() {
    let mut cart = Cart::new();
    cart.add("Surub", &product(), 8);
    cart.add("Surub", &product(), 7);
    cart.set_quantity(7, 4);
    let lines = cart.order_lines().unwrap();
    assert_eq!(lines.len(), 2);
    assert_eq!((lines[0].variation_id, lines[0].quantity), (8, 1));
    assert_eq!((lines[1].variation_id, lines[1].quantity), (7, 4));
}

#[test]
fn positions_follow_insertion_order() {
    let mut cart = Cart::new();
    cart.add("Surub", &product(), 9);
    cart.add("Surub", &product(), 7);
    assert_eq!(cart.position(9), Some(0));
    assert_eq!(cart.position(7), Some(1));
}
