use billing_gateway::catalog::{
    price_summary, product_summary, summarize_prices, summarize_products, StripeList, StripePrice,
    StripePriceOrId, StripeProduct, StripeProductOrId, StripeRecurring,
};

fn bare_price(id: &str) -> StripePrice {
    StripePrice {
        id: id.to_string(),
        product: None,
        unit_amount: None,
        currency: None,
        recurring: None,
    }
}

fn bare_product(id: &str, name: &str) -> StripeProduct {
    StripeProduct {
        id: id.to_string(),
        name: name.to_string(),
        description: None,
        default_price: None,
    }
}

// An expandable reference yields the same id from the raw-id shape and from
// the nested-object shape, here built from the two JSON forms the provider
// may send.
#[test]
fn expandable_reference_both_shapes_agree() {
    let raw: serde_json::Value = serde_json::from_str("\"price_1\"").unwrap();
    let nested: serde_json::Value =
        serde_json::from_str("{\"id\":\"price_1\",\"unit_amount\":500}").unwrap();

    let from_raw = StripePriceOrId::Id(raw.as_str().unwrap().to_string());
    let mut price = bare_price(nested.get("id").unwrap().as_str().unwrap());
    price.unit_amount = nested.get("unit_amount").unwrap().as_i64();
    let from_nested = StripePriceOrId::Expanded(Box::new(price));

    assert_eq!(from_raw.ref_id(), "price_1");
    assert_eq!(from_nested.ref_id(), "price_1");
    assert_eq!(from_raw.ref_id(), from_nested.ref_id());
}

#[test]
fn product_reference_both_shapes_agree() {
    let expanded = StripeProductOrId::Expanded(Box::new(bare_product("prod_1", "Widget")));
    let bare = StripeProductOrId::Id("prod_1".to_string());
    assert_eq!(expanded.ref_id(), bare.ref_id());
}

// An unexpanded product field surfaces as the bare id in the listing row.
#[test]
fn unexpanded_product_field_keeps_its_id() {
    let mut price = bare_price("price_1");
    price.product = Some(StripeProductOrId::Id("prod_1".to_string()));
    let row = price_summary(&price);
    assert_eq!(row.product_id, "prod_1");
}

#[test]
fn expanded_product_field_collapses_to_its_id() {
    let mut price = bare_price("price_1");
    price.product = Some(StripeProductOrId::Expanded(Box::new(bare_product(
        "prod_1", "Widget",
    ))));
    let row = price_summary(&price);
    assert_eq!(row.product_id, "prod_1");
}

#[test]
fn price_listing_defaults() {
    let row = price_summary(&bare_price("price_1"));
    assert_eq!(row.id, "price_1");
    assert_eq!(row.product_id, "");
    assert_eq!(row.unit_amount, 0);
    assert_eq!(row.currency, "usd");
    assert_eq!(row.interval, None);
    assert_eq!(row.trial_period_days, None);
}

#[test]
fn price_listing_keeps_present_fields() {
    let mut price = bare_price("price_1");
    price.unit_amount = Some(1500);
    price.currency = Some("eur".to_string());
    price.recurring = Some(StripeRecurring {
        interval: Some("month".to_string()),
        trial_period_days: Some(14),
    });
    let row = price_summary(&price);
    assert_eq!(row.unit_amount, 1500);
    assert_eq!(row.currency, "eur");
    assert_eq!(row.interval.as_deref(), Some("month"));
    assert_eq!(row.trial_period_days, Some(14));
}

#[test]
fn product_rows_collapse_default_price_either_way() {
    let mut with_expanded = bare_product("prod_1", "Widget");
    with_expanded.default_price = Some(StripePriceOrId::Expanded(Box::new(bare_price("price_9"))));
    let mut with_id = bare_product("prod_2", "Gadget");
    with_id.default_price = Some(StripePriceOrId::Id("price_9".to_string()));
    with_id.description = Some("a gadget".to_string());

    let rows = summarize_products(&StripeList { data: vec![with_expanded, with_id, bare_product("prod_3", "Gizmo")] });
    assert_eq!(rows.len(), 3);
    assert_eq!(rows[0].default_price_id.as_deref(), Some("price_9"));
    assert_eq!(rows[1].default_price_id.as_deref(), Some("price_9"));
    assert_eq!(rows[1].description.as_deref(), Some("a gadget"));
    assert_eq!(rows[2].default_price_id, None);
    assert_eq!(rows[0].name, "Widget");
}

#[test]
fn price_rows_keep_order() {
    let mut a = bare_price("price_a");
    a.product = Some(StripeProductOrId::Id("prod_1".to_string()));
    let b = bare_price("price_b");
    let rows = summarize_prices(&StripeList { data: vec![a, b] });
    assert_eq!(rows.len(), 2);
    assert_eq!(rows[0].id, "price_a");
    assert_eq!(rows[0].product_id, "prod_1");
    assert_eq!(rows[1].id, "price_b");
}
