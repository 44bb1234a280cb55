//! A checkout: promotional rules bound to the order of one shopping session.
//!
//! Scanning a code looks the product up in the rules and adds one unit of it
//! to the order. Reading the total applies the discount on the whole order to
//! the order's subtotal, and rounds once. The operations are also there as
//! functions over rules and order apart, for sessions that share one set of
//! rules.

use vstd::prelude::*;
use crate::money::{percent_off, take_percentage_off};
use crate::order::{add_unit, representable, subtotal, LineItem, Order, OrderError};
use crate::rules::{OrderDiscountModel, ParseError, PromotionalRules, RuleRecord, RulesModel};

verus! {

/// What is to pay for an order with the given subtotal: the subtotal less the
/// discount's percentage where the subtotal has reached the discount's
/// threshold, the subtotal itself below that and where there is no discount.
/// A threshold of zero never applies.
pub open spec fn order_total(discount: Option<OrderDiscountModel>, subtotal: nat) -> nat {
    match discount {
        Some(d) => if d.threshold >= 1 && subtotal >= d.threshold {
            percent_off(subtotal, d.percentage)
        } else {
            subtotal
        },
        None => subtotal,
    }
}

/// The lines after a scan of `code`: one more unit of the product with that
/// identifier, or the same lines where the rules know no such product.
pub open spec fn scan_step(rules: RulesModel, lines: Seq<LineItem>, code: Seq<char>) -> Seq<
    LineItem,
> {
    match rules.lookup(code) {
        Some(product) => add_unit(lines, product),
        None => lines,
    }
}

/// The lines of a session in which `codes` were scanned one after the other,
/// starting from an empty order.
pub open spec fn scan_all(rules: RulesModel, codes: Seq<Seq<char>>) -> Seq<LineItem>
    decreases codes.len(),
{
    if codes.len() == 0 {
        Seq::empty()
    } else {
        scan_step(rules, scan_all(rules, codes.drop_last()), codes.last())
    }
}

/// Why a scan changed nothing.
#[derive(Clone, Copy, Debug, PartialEq, Eq, Structural)]
pub enum ScanError {
    /// The rules know no product with the code.
    UnknownProduct,
    /// A count or the subtotal would leave the range of the machine's integers.
    Overflow,
}

/// How a scan of `code` ends: it is refused where the rules know no product
/// with that identifier, and where the lines with one more unit of the
/// product would not fit the machine's integers.
pub open spec fn scan_outcome(rules: RulesModel, lines: Seq<LineItem>, code: Seq<char>) -> Result<
    (),
    ScanError,
> {
    match rules.lookup(code) {
        None => Err(ScanError::UnknownProduct),
        Some(product) => if representable(add_unit(lines, product)) {
            Ok(())
        } else {
            Err(ScanError::Overflow)
        },
    }
}

/// A checkout as the pricing rule reads it.
#[verifier::ext_equal]
pub struct CheckoutModel {
    pub rules: RulesModel,
    pub lines: Seq<LineItem>,
}

impl CheckoutModel {
    /// What is to pay.
    pub open spec fn total(self) -> nat {
        order_total(self.rules.order_discount, subtotal(self.lines))
    }
}

/// Opens a checkout on the rules that `rule_data` holds, with an empty order.
pub fn new(rule_data: &RuleRecord) -> (created: Result<Checkout, ParseError>)
    ensures
        match created {
            Ok(checkout) => {
                &&& rule_data.load_error() is None
                &&& checkout@.rules == rule_data.rules()
                &&& checkout@.rules.wf()
                &&& checkout@.lines == Seq::<LineItem>::empty()
            },
            Err(e) => rule_data.load_error() == Some(e),
        },
{
    match PromotionalRules::load(rule_data) {
        Ok(rules) => Ok(Checkout { order: Order::new(), rules }),
        Err(e) => Err(e),
    }
}

/// Scans one unit of the product with code `item_code` into `order`. A code
/// that `rules` does not know is refused, and so is a unit with which a count
/// or the subtotal would not fit; the order is then as it was.
pub fn scan(rules: &PromotionalRules, order: &mut Order, item_code: &str) -> (scanned: Result<
    (),
    ScanError,
>)
    ensures
        scanned == scan_outcome(rules@, old(order)@, item_code@),
        final(order)@ == match scanned {
            Ok(()) => scan_step(rules@, old(order)@, item_code@),
            Err(_) => old(order)@,
        },
{
    match rules.find_product(item_code) {
        Some(product) => match order.add_to_order(product) {
            Ok(()) => Ok(()),
            Err(OrderError::Overflow) => Err(ScanError::Overflow),
        },
        None => Err(ScanError::UnknownProduct),
    }
}

/// What is to pay for `order` under `rules`: its subtotal, less the
/// percentage of the discount on the order where the subtotal has reached
/// that discount's threshold. The one rounding is that of the reduced amount.
pub fn total(rules: &PromotionalRules, order: &Order) -> (total: u64)
    ensures
        total == order_total(rules@.order_discount, subtotal(order@)),
{
    let subtotal = order.total();
    match rules.order_discount() {
        Some(discount) => if discount.threshold != 0 && subtotal >= discount.threshold {
            take_percentage_off(subtotal, discount.percentage)
        } else {
            subtotal
        },
        None => subtotal,
    }
}

/// Promotional rules and the order of one shopping session.
#[derive(Debug)]
pub struct Checkout {
    order: Order,
    rules: PromotionalRules,
}

impl View for Checkout {
    type V = CheckoutModel;

    closed spec fn view(&self) -> CheckoutModel {
        CheckoutModel { rules: self.rules@, lines: self.order@ }
    }
}

impl Checkout {
    /// Opens a checkout on the rules that `rule_data` holds, with an empty
    /// order. A record that does not load is refused with its error.
    pub fn new(rule_data: &RuleRecord) -> (created: Result<Checkout, ParseError>)
        ensures
            match created {
                Ok(checkout) => {
                    &&& rule_data.load_error() is None
                    &&& checkout@.rules == rule_data.rules()
                    &&& checkout@.rules.wf()
                    &&& checkout@.lines == Seq::<LineItem>::empty()
                },
                Err(e) => rule_data.load_error() == Some(e),
            },
    {
        self::new(rule_data)
    }

    /// Scans one unit of the product with code `item_code`. A code that the
    /// rules do not know is refused, and so is a unit with which a count or
    /// the subtotal would not fit; the checkout is then as it was.
    pub fn scan(&mut self, item_code: &str) -> (scanned: Result<(), ScanError>)
        ensures
            scanned == scan_outcome(old(self)@.rules, old(self)@.lines, item_code@),
            final(self)@.rules == old(self)@.rules,
            final(self)@.lines == match scanned {
                Ok(()) => scan_step(old(self)@.rules, old(self)@.lines, item_code@),
                Err(_) => old(self)@.lines,
            },
    {
        self::scan(&self.rules, &mut self.order, item_code)
    }

    /// What is to pay: the order's subtotal, less the percentage of the
    /// discount on the order where the subtotal has reached that discount's
    /// threshold. Reading it changes nothing.
    pub fn total(&self) -> (total: u64)
        ensures
            total == self@.total(),
    {
        self::total(&self.rules, &self.order)
    }

    /// The rules of the checkout.
    pub fn rules(&self) -> (rules: &PromotionalRules)
        ensures
            rules@ == self@.rules,
    {
        &self.rules
    }

    /// The order of the checkout.
    pub fn order(&self) -> (order: &Order)
        ensures
            order@ == self@.lines,
    {
        &self.order
    }
}

} // verus!
