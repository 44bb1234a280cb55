use shop::checkout::{new, scan, total, Checkout, ScanError};
use shop::money::take_percentage_off;
use shop::order::{Order, OrderError, OrderItem};
use shop::rules::{Product, ProductRecord, PromotionalRules, RuleRecord, VolumeDiscount};

fn plain(id: &str, price: i64) -> ProductRecord {
    ProductRecord {
        id: Some(id.to_string()),
        name: Some(id.to_string()),
        price: Some(price),
        discount_threshold: None,
        discount_price: None,
    }
}

fn discounted(id: &str, price: i64, threshold: i64, discount_price: i64) -> ProductRecord {
    ProductRecord {
        id: Some(id.to_string()),
        name: Some(id.to_string()),
        price: Some(price),
        discount_threshold: Some(threshold),
        discount_price: Some(discount_price),
    }
}

fn record(threshold: i64, percentage: i64, products: Vec<ProductRecord>) -> RuleRecord {
    RuleRecord {
        version: None,
        total_discount_threshold: Some(threshold),
        total_discount_percentage: Some(percentage),
        products: Some(products),
    }
}

fn session(rules: &RuleRecord, codes: &[&str]) -> Checkout {
    let mut checkout = Checkout::new(rules).unwrap();
    for code in codes {
        checkout.scan(code).unwrap();
    }
    checkout
}

#[test]
fn without_discounts_the_total_is_price_times_scans() {
    let rules = record(0, 0, vec![plain("a", 250), plain("b", 399), plain("c", 799)]);
    let checkout = session(&rules, &["a", "b", "a", "c", "a", "b"]);
    assert_eq!(checkout.total(), 3 * 250 + 2 * 399 + 799);
    assert_eq!(checkout.order().total(), 3 * 250 + 2 * 399 + 799);
}

#[test]
fn an_empty_order_costs_nothing() {
    let rules = record(1, 10, vec![plain("a", 250)]);
    let checkout = session(&rules, &[]);
    assert_eq!(checkout.order().items().len(), 0);
    assert_eq!(checkout.order().total(), 0);
    assert_eq!(checkout.total(), 0);
}

#[test]
fn repeated_scans_make_one_line_that_counts_them() {
    let rules = record(0, 0, vec![plain("a", 250), plain("b", 399)]);
    let checkout = session(&rules, &["a", "b", "a", "a", "b", "a"]);
    let items = checkout.order().items();
    assert_eq!(items.len(), 2);
    assert_eq!(items[0].item().id, "a");
    assert_eq!(items[0].count(), 4);
    assert_eq!(items[1].item().id, "b");
    assert_eq!(items[1].count(), 2);
}

#[test]
fn lines_stand_in_the_order_of_first_scan() {
    let rules = record(0, 0, vec![plain("a", 1), plain("b", 2), plain("c", 3)]);
    let checkout = session(&rules, &["c", "a", "c", "b", "a"]);
    let ids: Vec<&str> = checkout.order().items().iter().map(|line| line.item().id.as_str()).collect();
    assert_eq!(ids, vec!["c", "a", "b"]);
}

#[test]
fn the_order_of_scans_does_not_change_the_total() {
    let rules = record(
        6000,
        10,
        vec![discounted("001", 925, 2, 850), plain("002", 4500), plain("003", 1995)],
    );
    let orders: Vec<Vec<&str>> = vec![
        vec!["001", "002", "001", "003"],
        vec!["003", "001", "002", "001"],
        vec!["001", "001", "003", "002"],
        vec!["002", "003", "001", "001"],
    ];
    for codes in orders {
        let checkout = session(&rules, &codes);
        assert_eq!(checkout.order().total(), 8195);
        assert_eq!(checkout.total(), 7376);
    }
}

#[test]
fn a_volume_discount_sets_in_at_its_threshold() {
    let rules = record(0, 0, vec![discounted("a", 1000, 3, 700)]);
    let mut checkout = Checkout::new(&rules).unwrap();
    checkout.scan("a").unwrap();
    assert_eq!(checkout.total(), 1000);
    checkout.scan("a").unwrap();
    assert_eq!(checkout.total(), 2000);
    assert_eq!(OrderItem::calculate_cost(&checkout.order().items()[0]), 2000);
    checkout.scan("a").unwrap();
    assert_eq!(checkout.total(), 2100);
    assert_eq!(OrderItem::calculate_cost(&checkout.order().items()[0]), 2100);
    checkout.scan("a").unwrap();
    assert_eq!(checkout.total(), 2800);
}

#[test]
fn a_volume_discount_with_threshold_one_applies_to_the_first_unit() {
    let rules = record(0, 0, vec![discounted("a", 1000, 1, 700)]);
    let checkout = session(&rules, &["a"]);
    assert_eq!(checkout.total(), 700);
}

#[test]
fn a_volume_discount_with_threshold_zero_never_applies() {
    let product = Product {
        id: "a".to_string(),
        name: "a".to_string(),
        price: 1000,
        discount: Some(VolumeDiscount { threshold: 0, price: 700 }),
    };
    let mut order = Order::new();
    order.add_to_order(&product).unwrap();
    assert_eq!(order.total(), 1000);
    order.add_to_order(&product).unwrap();
    assert_eq!(order.total(), 2000);
}

#[test]
fn a_dearer_discount_price_is_applied_as_given() {
    let rules = record(0, 0, vec![discounted("a", 100, 2, 150)]);
    let checkout = session(&rules, &["a", "a"]);
    assert_eq!(checkout.total(), 300);
}

#[test]
fn the_order_discount_sets_in_at_its_threshold() {
    let rules = record(1000, 10, vec![plain("a", 999), plain("b", 1)]);
    let mut checkout = Checkout::new(&rules).unwrap();
    checkout.scan("a").unwrap();
    assert_eq!(checkout.total(), 999);
    checkout.scan("b").unwrap();
    assert_eq!(checkout.order().total(), 1000);
    assert_eq!(checkout.total(), 900);
    checkout.scan("b").unwrap();
    assert_eq!(checkout.order().total(), 1001);
    assert_eq!(checkout.total(), 901);
}

#[test]
fn the_reduced_amount_is_rounded_once_and_halves_go_up() {
    assert_eq!(take_percentage_off(8195, 10), 7376);
    assert_eq!(take_percentage_off(7420, 10), 6678);
    assert_eq!(take_percentage_off(3349, 10), 3014);
    assert_eq!(take_percentage_off(5, 10), 5);
    assert_eq!(take_percentage_off(4, 10), 4);
    assert_eq!(take_percentage_off(15, 10), 14);
    assert_eq!(take_percentage_off(1, 50), 1);
    assert_eq!(take_percentage_off(1, 51), 0);
    assert_eq!(take_percentage_off(3, 50), 2);
    assert_eq!(take_percentage_off(1234, 0), 1234);
    assert_eq!(take_percentage_off(1234, 100), 0);
    assert_eq!(take_percentage_off(u64::MAX, 0), u64::MAX);
    assert_eq!(take_percentage_off(u64::MAX, 1), 18262276632972456099);
}

#[test]
fn rounding_lines_would_give_another_total() {
    // Three lines of 5 each: 15 less ten percent is 13.5, so 14; each line
    // rounded by itself would give 3 times 5.
    let rules = record(1, 10, vec![plain("a", 5), plain("b", 5), plain("c", 5)]);
    let checkout = session(&rules, &["a", "b", "c"]);
    assert_eq!(checkout.total(), 14);
}

#[test]
fn reading_the_total_twice_gives_it_twice() {
    let rules = record(6000, 10, vec![discounted("001", 925, 2, 850), plain("002", 4500)]);
    let checkout = session(&rules, &["001", "002", "001"]);
    let first = checkout.total();
    let second = checkout.total();
    assert_eq!(first, second);
    assert_eq!(first, 5580);
    assert_eq!(checkout.order().items().len(), 2);
    assert_eq!(checkout.order().total(), 6200);
}

#[test]
fn an_unknown_code_is_refused_and_changes_nothing() {
    let rules = record(0, 0, vec![plain("a", 250)]);
    let mut checkout = session(&rules, &["a"]);
    assert_eq!(checkout.scan("b"), Err(ScanError::UnknownProduct));
    assert_eq!(checkout.scan(""), Err(ScanError::UnknownProduct));
    assert_eq!(checkout.scan("A"), Err(ScanError::UnknownProduct));
    assert_eq!(checkout.order().items().len(), 1);
    assert_eq!(checkout.order().items()[0].count(), 1);
    assert_eq!(checkout.total(), 250);
}

#[test]
fn a_subtotal_that_would_not_fit_is_refused_and_changes_nothing() {
    let rules = record(0, 0, vec![plain("a", i64::MAX), plain("b", 2)]);
    let mut checkout = session(&rules, &["a", "a"]);
    assert_eq!(checkout.order().total(), u64::MAX - 1);
    assert_eq!(checkout.scan("a"), Err(ScanError::Overflow));
    assert_eq!(checkout.scan("b"), Err(ScanError::Overflow));
    assert_eq!(checkout.order().items().len(), 1);
    assert_eq!(checkout.order().items()[0].count(), 2);
    assert_eq!(checkout.order().total(), u64::MAX - 1);
    assert_eq!(checkout.total(), u64::MAX - 1);
}

#[test]
fn an_order_refuses_a_unit_that_would_not_fit() {
    let dear = Product { id: "a".to_string(), name: "a".to_string(), price: u64::MAX, discount: None };
    let cheap = Product { id: "b".to_string(), name: "b".to_string(), price: 1, discount: None };
    let mut order = Order::new();
    assert_eq!(order.add_to_order(&dear), Ok(()));
    assert_eq!(order.add_to_order(&cheap), Err(OrderError::Overflow));
    assert_eq!(order.add_to_order(&dear), Err(OrderError::Overflow));
    assert_eq!(order.items().len(), 1);
    assert_eq!(order.total(), u64::MAX);
}

#[test]
fn a_discount_can_bring_a_subtotal_back_into_range() {
    let rules = record(0, 0, vec![discounted("a", i64::MAX, 3, 1)]);
    let checkout = session(&rules, &["a", "a", "a"]);
    assert_eq!(checkout.total(), 3);
}

#[test]
fn a_line_keeps_the_product_of_its_first_unit() {
    let first = Product { id: "a".to_string(), name: "first".to_string(), price: 100, discount: None };
    let other = Product { id: "a".to_string(), name: "other".to_string(), price: 500, discount: None };
    let mut order = Order::new();
    order.add_to_order(&first).unwrap();
    order.add_to_order(&other).unwrap();
    assert_eq!(order.items().len(), 1);
    assert_eq!(order.items()[0].count(), 2);
    assert_eq!(order.items()[0].item().name, "first");
    assert_eq!(order.total(), 200);
}

#[test]
fn an_order_item_is_recorded_through_its_order() {
    let product = Product { id: "a".to_string(), name: "a".to_string(), price: 100, discount: None };
    let mut order = Order::new();
    assert_eq!(OrderItem::new(&mut order, product.clone()), Ok(()));
    assert_eq!(OrderItem::new(&mut order, product), Ok(()));
    assert_eq!(order.items().len(), 1);
    assert_eq!(order.items()[0].count(), 2);
    assert_eq!(OrderItem::calculate_cost(&order.items()[0]), 200);
    assert_eq!(order.total(), 200);
}

#[test]
fn sessions_can_share_one_set_of_rules() {
    let rules = PromotionalRules::load(&record(
        6000,
        10,
        vec![discounted("001", 925, 2, 850), plain("002", 4500), plain("003", 1995)],
    ))
    .unwrap();
    let mut one = Order::new();
    let mut other = Order::new();
    assert_eq!(scan(&rules, &mut one, "001"), Ok(()));
    assert_eq!(scan(&rules, &mut other, "002"), Ok(()));
    assert_eq!(scan(&rules, &mut one, "003"), Ok(()));
    assert_eq!(scan(&rules, &mut one, "001"), Ok(()));
    assert_eq!(scan(&rules, &mut other, "003"), Ok(()));
    assert_eq!(scan(&rules, &mut other, "004"), Err(ScanError::UnknownProduct));
    assert_eq!(total(&rules, &one), 3695);
    assert_eq!(total(&rules, &other), 5846);
}

#[test]
fn a_checkout_opens_on_an_empty_order() {
    let rules = record(6000, 10, vec![plain("002", 4500)]);
    let checkout = new(&rules).unwrap();
    assert_eq!(checkout.order().items().len(), 0);
    assert_eq!(checkout.total(), 0);
    assert_eq!(checkout.rules().products().len(), 1);
    assert_eq!(checkout.rules().order_discount().unwrap().threshold, 6000);
    assert_eq!(checkout.rules().order_discount().unwrap().percentage, 10);
}
