use shop::checkout::Checkout;
use shop::rules::{ParseError, Product, ProductRecord, PromotionalRules, RuleRecord};

fn entry(id: &str, price: i64) -> ProductRecord {
    ProductRecord {
        id: Some(id.to_string()),
        name: Some(format!("product {}", id)),
        price: Some(price),
        discount_threshold: None,
        discount_price: None,
    }
}

fn record(products: Vec<ProductRecord>) -> RuleRecord {
    RuleRecord {
        version: None,
        total_discount_threshold: Some(0),
        total_discount_percentage: Some(0),
        products: Some(products),
    }
}

#[test]
fn loads_an_empty_catalog() {
    let rules = PromotionalRules::load(&record(vec![])).unwrap();
    assert_eq!(rules.products().len(), 0);
    assert_eq!(rules.version(), None);
    assert!(rules.order_discount().is_none());
    assert!(rules.find_product("001").is_none());
}

#[test]
fn keeps_the_catalog_in_record_order() {
    let rules =
        PromotionalRules::load(&record(vec![entry("b", 2), entry("a", 1), entry("c", 3)])).unwrap();
    let ids: Vec<&str> = rules.products().iter().map(|p| p.id.as_str()).collect();
    assert_eq!(ids, vec!["b", "a", "c"]);
}

#[test]
fn finds_a_product_by_exact_identifier_only() {
    let rules = PromotionalRules::load(&record(vec![entry("001", 925), entry("0010", 100)])).unwrap();
    assert_eq!(rules.find_product("001").unwrap().price, 925);
    assert_eq!(rules.find_product("0010").unwrap().price, 100);
    assert!(rules.find_product("00").is_none());
    assert!(rules.find_product("001 ").is_none());
    assert!(rules.find_product("").is_none());
}

#[test]
fn an_absent_header_field_is_a_missing_field() {
    let mut no_threshold = record(vec![]);
    no_threshold.total_discount_threshold = None;
    assert_eq!(PromotionalRules::load(&no_threshold).unwrap_err(), ParseError::MissingField);

    let mut no_percentage = record(vec![]);
    no_percentage.total_discount_percentage = None;
    assert_eq!(PromotionalRules::load(&no_percentage).unwrap_err(), ParseError::MissingField);

    let mut no_products = record(vec![]);
    no_products.products = None;
    assert_eq!(PromotionalRules::load(&no_products).unwrap_err(), ParseError::MissingField);
}

#[test]
fn an_absent_product_field_is_a_missing_field() {
    let mut no_id = entry("001", 1);
    no_id.id = None;
    assert_eq!(
        PromotionalRules::load(&record(vec![entry("000", 1), no_id])).unwrap_err(),
        ParseError::MissingField
    );

    let mut no_name = entry("001", 1);
    no_name.name = None;
    assert_eq!(
        PromotionalRules::load(&record(vec![no_name])).unwrap_err(),
        ParseError::MissingField
    );

    let mut no_price = entry("001", 1);
    no_price.price = None;
    assert_eq!(
        PromotionalRules::load(&record(vec![no_price])).unwrap_err(),
        ParseError::MissingField
    );
}

#[test]
fn a_number_out_of_range_is_an_invalid_number() {
    assert_eq!(
        PromotionalRules::load(&record(vec![entry("001", -1)])).unwrap_err(),
        ParseError::InvalidNumber
    );

    let mut negative_threshold = entry("001", 1);
    negative_threshold.discount_threshold = Some(-2);
    assert_eq!(
        PromotionalRules::load(&record(vec![negative_threshold])).unwrap_err(),
        ParseError::InvalidNumber
    );

    let mut negative_discount_price = entry("001", 1);
    negative_discount_price.discount_price = Some(-1);
    assert_eq!(
        PromotionalRules::load(&record(vec![negative_discount_price])).unwrap_err(),
        ParseError::InvalidNumber
    );

    let mut negative_total = record(vec![]);
    negative_total.total_discount_threshold = Some(-1);
    assert_eq!(PromotionalRules::load(&negative_total).unwrap_err(), ParseError::InvalidNumber);

    let mut negative_percentage = record(vec![]);
    negative_percentage.total_discount_percentage = Some(-1);
    assert_eq!(
        PromotionalRules::load(&negative_percentage).unwrap_err(),
        ParseError::InvalidNumber
    );

    let mut percentage_above_hundred = record(vec![]);
    percentage_above_hundred.total_discount_percentage = Some(101);
    assert_eq!(
        PromotionalRules::load(&percentage_above_hundred).unwrap_err(),
        ParseError::InvalidNumber
    );
}

#[test]
fn the_ends_of_the_percentage_range_load() {
    let mut nothing_off = record(vec![]);
    nothing_off.total_discount_threshold = Some(1);
    nothing_off.total_discount_percentage = Some(0);
    let rules = PromotionalRules::load(&nothing_off).unwrap();
    assert_eq!(rules.order_discount().unwrap().percentage, 0);

    let mut all_off = record(vec![]);
    all_off.total_discount_threshold = Some(1);
    all_off.total_discount_percentage = Some(100);
    let rules = PromotionalRules::load(&all_off).unwrap();
    assert_eq!(rules.order_discount().unwrap().percentage, 100);
    assert_eq!(rules.order_discount().unwrap().threshold, 1);
}

#[test]
fn a_repeated_identifier_is_a_duplicate_product() {
    assert_eq!(
        PromotionalRules::load(&record(vec![entry("001", 1), entry("002", 2), entry("001", 3)]))
            .unwrap_err(),
        ParseError::DuplicateProduct
    );
    assert_eq!(
        Checkout::new(&record(vec![entry("001", 1), entry("001", 1)])).err(),
        Some(ParseError::DuplicateProduct)
    );
}

#[test]
fn an_absent_field_comes_before_a_bad_number_and_that_before_a_repeated_identifier() {
    let mut no_name = entry("003", 1);
    no_name.name = None;
    assert_eq!(
        PromotionalRules::load(&record(vec![entry("001", -1), entry("001", 1), no_name]))
            .unwrap_err(),
        ParseError::MissingField
    );
    assert_eq!(
        PromotionalRules::load(&record(vec![entry("001", 1), entry("001", 1), entry("002", -1)]))
            .unwrap_err(),
        ParseError::InvalidNumber
    );

    let mut both = entry("001", -1);
    both.name = None;
    assert_eq!(Product::from_record(&both).unwrap_err(), ParseError::MissingField);
}

#[test]
fn a_zero_threshold_on_the_order_is_no_discount() {
    let mut zero = record(vec![]);
    zero.total_discount_threshold = Some(0);
    zero.total_discount_percentage = Some(50);
    assert!(PromotionalRules::load(&zero).unwrap().order_discount().is_none());
}

#[test]
fn a_volume_discount_needs_a_threshold_of_at_least_one_and_a_price() {
    let mut full = entry("001", 925);
    full.discount_threshold = Some(2);
    full.discount_price = Some(850);
    let product = Product::from_record(&full).unwrap();
    let discount = product.discount.unwrap();
    assert_eq!((discount.threshold, discount.price), (2, 850));

    let mut zero_threshold = entry("001", 925);
    zero_threshold.discount_threshold = Some(0);
    zero_threshold.discount_price = Some(850);
    assert!(Product::from_record(&zero_threshold).unwrap().discount.is_none());

    let mut no_threshold = entry("001", 925);
    no_threshold.discount_price = Some(850);
    assert!(Product::from_record(&no_threshold).unwrap().discount.is_none());

    let mut no_price = entry("001", 925);
    no_price.discount_threshold = Some(2);
    assert!(Product::from_record(&no_price).unwrap().discount.is_none());
}

#[test]
fn a_product_reads_as_the_record_says() {
    let product = Product::from_record(&entry("001", 925)).unwrap();
    assert_eq!(product.id, "001");
    assert_eq!(product.name, "product 001");
    assert_eq!(product.price, 925);
    assert!(product.discount.is_none());

    let copy = product.clone();
    assert_eq!(copy.id, "001");
    assert_eq!(copy.name, "product 001");
    assert_eq!(copy.price, 925);
}

#[test]
fn the_version_is_carried_along() {
    let mut versioned = record(vec![]);
    versioned.version = Some(-7);
    assert_eq!(PromotionalRules::load(&versioned).unwrap().version(), Some(-7));
}
