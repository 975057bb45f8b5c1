use warehouse::api::orders::{item_details, order_url, orders_url, EmbeddedVariation, PriceSource, StoredVariation};
use warehouse::api::products::{product_item_url, product_url, products_url, variation_url, variations_url};
use warehouse::api::templates::templates_url;
use warehouse::api::users::{user_url, users_url};
use warehouse::api::{check_status, failure_message, is_success};

const BASE: &str = "https://warehouse.example.com";

#[test]
fn endpoint_urls() {
    assert_eq!(orders_url(BASE), "https://warehouse.example.com/order/");
    assert_eq!(order_url(BASE, 42), "https://warehouse.example.com/order/42");
    assert_eq!(products_url(BASE), "https://warehouse.example.com/product/");
    assert_eq!(product_url(BASE, 5), "https://warehouse.example.com/product/5");
    assert_eq!(product_item_url(BASE, 5), "https://warehouse.example.com/product/5/");
    assert_eq!(variations_url(BASE, 5), "https://warehouse.example.com/product/5/variation/");
    assert_eq!(variation_url(BASE, 5, 17), "https://warehouse.example.com/product/5/variation/17/");
    assert_eq!(templates_url(BASE), "https://warehouse.example.com/template");
    assert_eq!(users_url(BASE), "https://warehouse.example.com/user/");
    assert_eq!(user_url(BASE, 3), "https://warehouse.example.com/user/3/");
    assert_eq!(order_url(BASE, -1), "https://warehouse.example.com/order/-1");
}

#[test]
fn only_2xx_is_success() {
    assert!(!is_success(199));
    assert!(is_success(200));
    assert!(is_success(204));
    assert!(is_success(299));
    assert!(!is_success(300));
    assert!(!is_success(404));
}

#[test]
fn refused_requests_carry_status_and_body() {
    assert_eq!(
        failure_message("Order", "422 Unprocessable Entity", "bad"),
        "Order failed 422 Unprocessable Entity: bad"
    );
    assert_eq!(check_status("delete_user", 204, "204 No Content", ""), Ok(()));
    assert_eq!(
        check_status("delete_user", 403, "403 Forbidden", "no"),
        Err("delete_user failed 403 Forbidden: no".to_string())
    );
}

fn some(s: &str) -> Option<String> {
    Some(s.to_string())
}

#[test]
fn order_items_prefer_the_embedded_variation() {
    let embedded = Some(EmbeddedVariation { dimensions: some("M8"), packaging: None, standard: some("DIN") });
    let stored = Some(StoredVariation {
        product_name: "Surub".to_string(),
        dimensions: some("M10"),
        packaging: some("sac"),
        standard: None,
    });
    let d = item_details(&embedded, &stored);
    assert_eq!(d.product_name, "Surub");
    assert_eq!((d.dimensions.as_str(), d.packaging.as_str(), d.standard.as_str()), ("M8", "", "DIN"));
    assert!(matches!(d.price_from, PriceSource::Embedded));

    let d = item_details(&None, &stored);
    assert_eq!((d.dimensions.as_str(), d.packaging.as_str(), d.standard.as_str()), ("M10", "sac", ""));
    assert!(matches!(d.price_from, PriceSource::Stored));

    let d = item_details(&embedded, &None);
    assert_eq!(d.product_name, "");
    assert!(matches!(d.price_from, PriceSource::Embedded));

    let d = item_details(&None, &None);
    assert_eq!((d.product_name.as_str(), d.dimensions.as_str()), ("", ""));
    assert!(matches!(d.price_from, PriceSource::Unknown));
}
