//! What holds of every line, every total and every session, proved over the
//! models that the contracts of the library speak of.

use vstd::prelude::*;
use vstd::seq_lib::to_multiset_build;
use crate::checkout::{order_total, scan_all, scan_step};
use crate::money::lemma_percent_off_bounds;
use crate::order::{lemma_add_unit_wf, line_ids, lines_wf, subtotal, unit_price, LineItem};
use crate::rules::{OrderDiscountModel, ProductModel, RulesModel};

verus! {

/// A volume discount sets in at its threshold and not before: a line of
/// fewer units costs the plain price for each, a line of as many units or
/// more costs the discounted price for each, the first units too.
pub proof fn lemma_volume_discount_boundary(product: ProductModel, count: nat)
    requires
        product.discount matches Some(d) && d.threshold >= 1,
    ensures
        count < product.discount.unwrap().threshold ==> (LineItem { product, count }).cost()
            == count * product.price,
        count >= product.discount.unwrap().threshold ==> (LineItem { product, count }).cost()
            == count * product.discount.unwrap().price,
        unit_price(product, (product.discount.unwrap().threshold - 1) as nat) == product.price,
        unit_price(product, product.discount.unwrap().threshold)
            == product.discount.unwrap().price,
{
}

/// A product without a volume discount costs its plain price at any count.
pub proof fn lemma_no_volume_discount(product: ProductModel, count: nat)
    requires
        product.discount is None || product.discount.unwrap().threshold == 0,
    ensures
        (LineItem { product, count }).cost() == count * product.price,
{
}

/// The discount on the order sets in at its threshold and not before: below
/// it the subtotal is to pay, from it on the subtotal less the percentage,
/// rounded once, which is never more than the subtotal.
pub proof fn lemma_order_discount_boundary(discount: OrderDiscountModel, amount: nat)
    requires
        discount.threshold >= 1,
        discount.percentage <= 100,
    ensures
        amount < discount.threshold ==> order_total(Some(discount), amount) == amount,
        amount >= discount.threshold ==> order_total(Some(discount), amount) == (amount * (100
            - discount.percentage) + 50) / 100,
        order_total(Some(discount), amount) <= amount,
        order_total(None, amount) == amount,
{
    lemma_percent_off_bounds(amount, discount.percentage);
}

/// No units of a product cost nothing.
pub proof fn lemma_nothing_costs_nothing(product: ProductModel)
    ensures
        (LineItem { product, count: 0 }).cost() == 0,
{
    let unit = unit_price(product, 0);
    assert(0 * unit == 0) by (nonlinear_arith);
}

/// How often `code` was scanned in `codes`.
pub open spec fn occurrences(codes: Seq<Seq<char>>, code: Seq<char>) -> nat {
    codes.to_multiset().count(code)
}

/// The sum, over the products of a catalog, of what a line of the product
/// costs at the number of times that its code was scanned.
pub open spec fn catalog_cost(products: Seq<ProductModel>, codes: Seq<Seq<char>>) -> nat
    decreases products.len(),
{
    if products.len() == 0 {
        0
    } else {
        catalog_cost(products.drop_last(), codes) + (LineItem {
            product: products.last(),
            count: occurrences(codes, products.last().id),
        }).cost()
    }
}

/// The sum, over the products of a catalog, of the plain price times the
/// number of times that the product's code was scanned.
pub open spec fn plain_cost(products: Seq<ProductModel>, codes: Seq<Seq<char>>) -> nat
    decreases products.len(),
{
    if products.len() == 0 {
        0
    } else {
        plain_cost(products.drop_last(), codes) + occurrences(codes, products.last().id)
            * products.last().price
    }
}

/// One more scan of `code` counts for `code` and for no other code.
proof fn lemma_occurrences_push(codes: Seq<Seq<char>>, code: Seq<char>, other: Seq<char>)
    ensures
        occurrences(codes.push(code), other) == occurrences(codes, other) + if other == code {
            1nat
        } else {
            0nat
        },
{
    to_multiset_build(codes, code);
}

/// The catalog's cost depends on the scans only through how often each of
/// the catalog's codes was scanned.
proof fn lemma_catalog_cost_same_counts(
    products: Seq<ProductModel>,
    first: Seq<Seq<char>>,
    second: Seq<Seq<char>>,
)
    requires
        forall|m: int|
            0 <= m < products.len() ==> occurrences(first, (#[trigger] products[m]).id)
                == occurrences(second, products[m].id),
    ensures
        catalog_cost(products, first) == catalog_cost(products, second),
    decreases products.len(),
{
    if products.len() > 0 {
        lemma_catalog_cost_same_counts(products.drop_last(), first, second);
    }
}

/// One more scan of the code of product `m` changes the catalog's cost by
/// what the line of that product changes.
proof fn lemma_catalog_cost_push(products: Seq<ProductModel>, codes: Seq<Seq<char>>, m: int)
    requires
        0 <= m < products.len(),
        forall|a: int, b: int|
            0 <= a < products.len() && 0 <= b < products.len() && a != b ==> (
            #[trigger] products[a]).id != (#[trigger] products[b]).id,
    ensures
        catalog_cost(products, codes.push(products[m].id)) + (LineItem {
            product: products[m],
            count: occurrences(codes, products[m].id),
        }).cost() == catalog_cost(products, codes) + (LineItem {
            product: products[m],
            count: occurrences(codes, products[m].id) + 1,
        }).cost(),
    decreases products.len(),
{
    let code = products[m].id;
    let after = codes.push(code);
    let rest = products.drop_last();
    let last = products.len() - 1;
    lemma_occurrences_push(codes, code, products[last].id);
    if m == last {
        assert forall|a: int| 0 <= a < rest.len() implies occurrences(
            after,
            (#[trigger] rest[a]).id,
        ) == occurrences(codes, rest[a].id) by {
            lemma_occurrences_push(codes, code, rest[a].id);
        }
        lemma_catalog_cost_same_counts(rest, after, codes);
    } else {
        lemma_catalog_cost_push(rest, codes, m);
    }
}

/// Changing one line changes the subtotal by what that line changes.
proof fn lemma_subtotal_update(lines: Seq<LineItem>, k: int, line: LineItem)
    requires
        0 <= k < lines.len(),
    ensures
        subtotal(lines.update(k, line)) + lines[k].cost() == subtotal(lines) + line.cost(),
    decreases lines.len(),
{
    let after = lines.update(k, line);
    if k == lines.len() - 1 {
        assert(after.drop_last() =~= lines.drop_last());
    } else {
        lemma_subtotal_update(lines.drop_last(), k, line);
        assert(after.drop_last() =~= lines.drop_last().update(k, line));
    }
}

/// The lines hold, for each product scanned, one line with the number of
/// its scans, and cost what the catalog costs at those numbers.
spec fn tallied(rules: RulesModel, codes: Seq<Seq<char>>, lines: Seq<LineItem>) -> bool {
    &&& lines_wf(lines)
    &&& forall|i: int|
        0 <= i < lines.len() ==> {
            &&& rules.lookup((#[trigger] lines[i]).product.id) == Some(lines[i].product)
            &&& lines[i].count == occurrences(codes, lines[i].product.id)
        }
    &&& forall|m: int|
        0 <= m < rules.products.len() && occurrences(codes, (#[trigger] rules.products[m]).id) >= 1
            ==> line_ids(lines).contains(rules.products[m].id)
    &&& subtotal(lines) == catalog_cost(rules.products, codes)
}

/// A scan keeps the lines tallied.
proof fn lemma_scan_step_tallied(
    rules: RulesModel,
    codes: Seq<Seq<char>>,
    lines: Seq<LineItem>,
    code: Seq<char>,
)
    requires
        rules.wf(),
        tallied(rules, codes, lines),
    ensures
        tallied(rules, codes.push(code), scan_step(rules, lines, code)),
{
    let products = rules.products;
    let ids = rules.ids();
    let after_codes = codes.push(code);
    let after = scan_step(rules, lines, code);
    ids.index_of_first_ensures(code);
    assert forall|x: Seq<char>| x != code implies occurrences(after_codes, x) == occurrences(
        codes,
        x,
    ) by {
        lemma_occurrences_push(codes, code, x);
    }
    lemma_occurrences_push(codes, code, code);
    assert forall|a: int, b: int|
        0 <= a < products.len() && 0 <= b < products.len() && a != b implies (
    #[trigger] products[a]).id != (#[trigger] products[b]).id by {
        assert(ids[a] == products[a].id);
        assert(ids[b] == products[b].id);
    }
    match ids.index_of_first(code) {
        None => {
            assert forall|m: int| 0 <= m < products.len() implies (#[trigger] products[m]).id
                != code by {
                assert(ids[m] == products[m].id);
            }
            lemma_catalog_cost_same_counts(products, after_codes, codes);
        },
        Some(m) => {
            let product = products[m];
            lemma_catalog_cost_push(products, codes, m);
            lemma_add_unit_wf(lines, product);
            let line_codes = line_ids(lines);
            line_codes.index_of_first_ensures(code);
            match line_codes.index_of_first(code) {
                Some(k) => {
                    let line = LineItem { product, count: lines[k].count + 1 };
                    lemma_subtotal_update(lines, k, line);
                    assert(line_ids(after) =~= line_codes);
                    assert forall|i: int| 0 <= i < after.len() implies {
                        &&& rules.lookup((#[trigger] after[i]).product.id) == Some(
                            after[i].product,
                        )
                        &&& after[i].count == occurrences(after_codes, after[i].product.id)
                    } by {
                        if i != k {
                            assert(line_codes[i] != line_codes[k]);
                        }
                    }
                },
                None => {
                    assert(occurrences(codes, code) == 0);
                    assert(after.drop_last() =~= lines);
                    lemma_nothing_costs_nothing(product);
                    assert forall|i: int| 0 <= i < after.len() implies {
                        &&& rules.lookup((#[trigger] after[i]).product.id) == Some(
                            after[i].product,
                        )
                        &&& after[i].count == occurrences(after_codes, after[i].product.id)
                    } by {}
                    assert forall|n: int|
                        0 <= n < products.len() && occurrences(
                            after_codes,
                            (#[trigger] products[n]).id,
                        ) >= 1 implies line_ids(after).contains(products[n].id) by {
                        if products[n].id == code {
                            assert(line_ids(after)[lines.len() as int] == code);
                        } else {
                            let at = choose|at: int|
                                0 <= at < line_codes.len() && line_codes[at] == products[n].id;
                            assert(line_ids(after)[at] == products[n].id);
                        }
                    }
                },
            }
        },
    }
}

/// The lines of every session are tallied.
proof fn lemma_scan_all_tallied(rules: RulesModel, codes: Seq<Seq<char>>)
    requires
        rules.wf(),
    ensures
        tallied(rules, codes, scan_all(rules, codes)),
    decreases codes.len(),
{
    if codes.len() == 0 {
        assert(codes.to_multiset() =~= vstd::multiset::Multiset::<Seq<char>>::empty()) by {
            codes.to_multiset_ensures();
        }
        lemma_catalog_cost_nothing_scanned(rules.products, codes);
    } else {
        let before = codes.drop_last();
        lemma_scan_all_tallied(rules, before);
        lemma_scan_step_tallied(rules, before, scan_all(rules, before), codes.last());
        assert(before.push(codes.last()) =~= codes);
    }
}

/// Where nothing was scanned the catalog costs nothing.
proof fn lemma_catalog_cost_nothing_scanned(products: Seq<ProductModel>, codes: Seq<Seq<char>>)
    requires
        forall|code: Seq<char>| occurrences(codes, code) == 0,
    ensures
        catalog_cost(products, codes) == 0,
    decreases products.len(),
{
    if products.len() > 0 {
        lemma_catalog_cost_nothing_scanned(products.drop_last(), codes);
        lemma_nothing_costs_nothing(products.last());
    }
}

/// A session goes on from the lines that the scans so far have left.
pub proof fn lemma_scan_all_push(rules: RulesModel, codes: Seq<Seq<char>>, code: Seq<char>)
    ensures
        scan_all(rules, codes.push(code)) == scan_step(rules, scan_all(rules, codes), code),
{
    assert(codes.push(code).drop_last() =~= codes);
}

/// Scanning one code of the catalog `n` times gives one line of `n` units of
/// its product.
pub proof fn lemma_repeated_scans(rules: RulesModel, code: Seq<char>, n: nat)
    requires
        rules.lookup(code) is Some,
        n >= 1,
    ensures
        scan_all(rules, Seq::new(n, |i: int| code)) == seq![
            LineItem { product: rules.lookup(code).unwrap(), count: n },
        ],
    decreases n,
{
    let product = rules.lookup(code).unwrap();
    let codes = Seq::new(n, |i: int| code);
    let fewer = Seq::new((n - 1) as nat, |i: int| code);
    assert(codes.drop_last() =~= fewer);
    rules.ids().index_of_first_ensures(code);
    assert(product.id == code);
    if n == 1 {
        let none = Seq::<LineItem>::empty();
        line_ids(none).index_of_first_ensures(code);
        assert(scan_all(rules, fewer) == none);
    } else {
        lemma_repeated_scans(rules, code, (n - 1) as nat);
        let lines = seq![LineItem { product, count: (n - 1) as nat }];
        line_ids(lines).index_of_first_ensures(code);
        assert(line_ids(lines)[0] == code);
        assert(lines.update(0, LineItem { product, count: n }) =~= seq![
            LineItem { product, count: n },
        ]);
    }
}

/// In every session each product has at most one line, each line stands for a
/// product of the catalog and counts how often its code was scanned, and
/// every product of the catalog that was scanned has its line.
pub proof fn lemma_one_line_per_product(rules: RulesModel, codes: Seq<Seq<char>>)
    requires
        rules.wf(),
    ensures
        lines_wf(scan_all(rules, codes)),
        forall|i: int|
            0 <= i < scan_all(rules, codes).len() ==> {
                &&& rules.lookup((#[trigger] scan_all(rules, codes)[i]).product.id) == Some(
                    scan_all(rules, codes)[i].product,
                )
                &&& scan_all(rules, codes)[i].count == occurrences(
                    codes,
                    scan_all(rules, codes)[i].product.id,
                )
            },
        forall|code: Seq<char>|
            rules.lookup(code) is Some && occurrences(codes, code) >= 1 ==> #[trigger] line_ids(
                scan_all(rules, codes),
            ).contains(code),
{
    lemma_scan_all_tallied(rules, codes);
    let lines = scan_all(rules, codes);
    assert forall|code: Seq<char>|
        rules.lookup(code) is Some && occurrences(codes, code) >= 1 implies #[trigger] line_ids(
        lines,
    ).contains(code) by {
        rules.ids().index_of_first_ensures(code);
    }
}

/// The subtotal of every session is the sum, over the catalog, of what each
/// product costs at the number of times that its code was scanned.
pub proof fn lemma_subtotal_by_catalog(rules: RulesModel, codes: Seq<Seq<char>>)
    requires
        rules.wf(),
    ensures
        subtotal(scan_all(rules, codes)) == catalog_cost(rules.products, codes),
{
    lemma_scan_all_tallied(rules, codes);
}

/// The order of the scans does not matter: two sessions under the same rules
/// in which the same codes were scanned equally often, in whatever order,
/// have the same subtotal and the same total.
pub proof fn lemma_scan_order_irrelevant(
    rules: RulesModel,
    first: Seq<Seq<char>>,
    second: Seq<Seq<char>>,
)
    requires
        rules.wf(),
        first.to_multiset() == second.to_multiset(),
    ensures
        subtotal(scan_all(rules, first)) == subtotal(scan_all(rules, second)),
        order_total(rules.order_discount, subtotal(scan_all(rules, first))) == order_total(
            rules.order_discount,
            subtotal(scan_all(rules, second)),
        ),
{
    lemma_subtotal_by_catalog(rules, first);
    lemma_subtotal_by_catalog(rules, second);
    lemma_catalog_cost_same_counts(rules.products, first, second);
}

/// Without volume discounts the catalog costs the plain prices.
proof fn lemma_catalog_cost_plain(products: Seq<ProductModel>, codes: Seq<Seq<char>>)
    requires
        forall|m: int|
            0 <= m < products.len() && occurrences(codes, (#[trigger] products[m]).id) >= 1
                ==> products[m].discount is None,
    ensures
        catalog_cost(products, codes) == plain_cost(products, codes),
    decreases products.len(),
{
    if products.len() > 0 {
        lemma_catalog_cost_plain(products.drop_last(), codes);
    }
}

/// Where no product that was scanned has a volume discount, the subtotal is
/// the sum, over the catalog, of the plain price times the number of scans;
/// and that sum is to pay unless the discount on the order applies to it.
pub proof fn lemma_undiscounted_total(rules: RulesModel, codes: Seq<Seq<char>>)
    requires
        rules.wf(),
        forall|k: int|
            0 <= k < codes.len() ==> (rules.lookup(#[trigger] codes[k]) matches Some(product)
                ==> product.discount is None),
    ensures
        subtotal(scan_all(rules, codes)) == plain_cost(rules.products, codes),
        order_total(rules.order_discount, subtotal(scan_all(rules, codes))) == order_total(
            rules.order_discount,
            plain_cost(rules.products, codes),
        ),
        (rules.order_discount matches Some(d) ==> plain_cost(rules.products, codes) < d.threshold)
            ==> order_total(rules.order_discount, subtotal(scan_all(rules, codes)))
            == plain_cost(rules.products, codes),
{
    lemma_subtotal_by_catalog(rules, codes);
    assert forall|m: int|
        0 <= m < rules.products.len() && occurrences(codes, (#[trigger] rules.products[m]).id)
            >= 1 implies rules.products[m].discount is None by {
        let code = rules.products[m].id;
        codes.to_multiset_ensures();
        rules.ids().index_of_first_ensures(code);
        assert(rules.ids()[m] == code);
    }
    lemma_catalog_cost_plain(rules.products, codes);
}

} // verus!
