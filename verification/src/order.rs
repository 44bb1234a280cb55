//! An order: one line per product scanned, in the order of first scan, and a
//! subtotal that is the sum of the lines at all times.
//!
//! What a line costs depends on its product and its count alone, so the
//! subtotal is computed anew over all lines whenever a unit is added.

use vstd::prelude::*;
use crate::rules::{Product, ProductModel};

verus! {

/// The price of each unit of `product` in a line of `count` units: the
/// discounted price once the count has reached the discount's threshold, the
/// plain price before that and where there is no discount. A threshold of zero
/// never applies.
pub open spec fn unit_price(product: ProductModel, count: nat) -> nat {
    match product.discount {
        Some(d) => if d.threshold >= 1 && count >= d.threshold {
            d.price
        } else {
            product.price
        },
        None => product.price,
    }
}

/// A line of an order as the pricing rule reads it: so many units of one
/// product.
#[verifier::ext_equal]
pub struct LineItem {
    pub product: ProductModel,
    pub count: nat,
}

impl LineItem {
    /// What the line costs: every unit at the price that its count gives.
    pub open spec fn cost(self) -> nat {
        self.count * unit_price(self.product, self.count)
    }
}

/// The sum of what the lines cost.
pub open spec fn subtotal(lines: Seq<LineItem>) -> nat
    decreases lines.len(),
{
    if lines.len() == 0 {
        0
    } else {
        subtotal(lines.drop_last()) + lines.last().cost()
    }
}

/// The product identifiers of the lines, in their order.
pub open spec fn line_ids(lines: Seq<LineItem>) -> Seq<Seq<char>> {
    Seq::new(lines.len(), |i: int| lines[i].product.id)
}

/// The lines after one more unit of `product`: the line with its identifier
/// counts one more, or, where there is none, a new line with one unit comes
/// last.
pub open spec fn add_unit(lines: Seq<LineItem>, product: ProductModel) -> Seq<LineItem> {
    match line_ids(lines).index_of_first(product.id) {
        Some(i) => lines.update(i, LineItem { product: lines[i].product, count: lines[i].count + 1 }),
        None => lines.push(LineItem { product, count: 1 }),
    }
}

/// Each product has at most one line, and each line at least one unit.
pub open spec fn lines_wf(lines: Seq<LineItem>) -> bool {
    &&& line_ids(lines).no_duplicates()
    &&& forall|i: int| 0 <= i < lines.len() ==> (#[trigger] lines[i]).count >= 1
}

/// Every count and the subtotal fit the machine's integers.
pub open spec fn representable(lines: Seq<LineItem>) -> bool {
    &&& subtotal(lines) <= u64::MAX
    &&& forall|i: int| 0 <= i < lines.len() ==> (#[trigger] lines[i]).count <= u64::MAX
}

/// The first lines of an order never cost more than all of them.
pub proof fn lemma_subtotal_prefix(lines: Seq<LineItem>, n: int)
    requires
        0 <= n <= lines.len(),
    ensures
        subtotal(lines.take(n)) <= subtotal(lines),
    decreases lines.len(),
{
    if n == lines.len() {
        assert(lines.take(n) =~= lines);
    } else {
        lemma_subtotal_prefix(lines.drop_last(), n);
        assert(lines.drop_last().take(n) =~= lines.take(n));
    }
}

/// The lines up to and with line `i` cost what the lines before it cost, and
/// line `i`.
pub proof fn lemma_subtotal_step(lines: Seq<LineItem>, i: int)
    requires
        0 <= i < lines.len(),
    ensures
        subtotal(lines.take(i + 1)) == subtotal(lines.take(i)) + lines[i].cost(),
{
    assert(lines.take(i + 1).drop_last() =~= lines.take(i));
}

/// One more unit of a product keeps an order well formed.
pub proof fn lemma_add_unit_wf(lines: Seq<LineItem>, product: ProductModel)
    requires
        lines_wf(lines),
    ensures
        lines_wf(add_unit(lines, product)),
{
    let ids = line_ids(lines);
    let after = add_unit(lines, product);
    ids.index_of_first_ensures(product.id);
    match ids.index_of_first(product.id) {
        Some(i) => {
            assert(line_ids(after) =~= ids);
        },
        None => {
            assert forall|a: int, b: int|
                0 <= a < after.len() && 0 <= b < after.len() && a != b implies line_ids(after)[a]
                != line_ids(after)[b] by {
                if a < ids.len() {
                    assert(ids[a] == line_ids(after)[a]);
                }
                if b < ids.len() {
                    assert(ids[b] == line_ids(after)[b]);
                }
            }
        },
    }
}

/// Why a unit was not added.
#[derive(Clone, Copy, Debug, PartialEq, Eq, Structural)]
pub enum OrderError {
    /// A count or the subtotal would leave the range of the machine's integers.
    Overflow,
}

/// A line of an order: a product and the number of its units scanned so far,
/// at least one. What the line costs fits a `u64`.
#[derive(Debug)]
pub struct OrderItem {
    count: u64,
    item: Product,
}

impl View for OrderItem {
    type V = LineItem;

    closed spec fn view(&self) -> LineItem {
        LineItem { product: self.item@, count: self.count as nat }
    }
}

/// The lines that `items` stand for.
spec fn lines_of(items: Seq<OrderItem>) -> Seq<LineItem> {
    Seq::new(items.len(), |i: int| items[i]@)
}

/// The price of each unit of `product` in a line of `count` units.
fn unit_price_of(product: &Product, count: u64) -> (unit: u64)
    ensures
        unit == unit_price(product@, count as nat),
{
    match product.discount {
        Some(d) => if d.threshold != 0 && count >= d.threshold {
            d.price
        } else {
            product.price
        },
        None => product.price,
    }
}

/// What a line of `count` units of `product` costs, unless that is more than
/// a `u64` holds.
fn cost_of(product: &Product, count: u64) -> (cost: Option<u64>)
    ensures
        match cost {
            Some(c) => c == (LineItem { product: product@, count: count as nat }).cost(),
            None => (LineItem { product: product@, count: count as nat }).cost() > u64::MAX,
        },
{
    count.checked_mul(unit_price_of(product, count))
}

/// The place of the line for `id` among `items`, if there is one.
fn position(items: &Vec<OrderItem>, id: &String) -> (found: Option<usize>)
    ensures
        match found {
            Some(k) => k < items@.len() && line_ids(lines_of(items@)).index_of_first(id@) == Some(
                k as int,
            ),
            None => line_ids(lines_of(items@)).index_of_first(id@) is None,
        },
{
    let ghost ids = line_ids(lines_of(items@));
    let mut k: usize = 0;
    while k < items.len()
        invariant
            k <= items@.len(),
            ids == line_ids(lines_of(items@)),
            forall|j: int| 0 <= j < k ==> (#[trigger] ids[j]) != id@,
        decreases items@.len() - k,
    {
        if items[k].item.id == *id {
            proof {
                ids.index_of_first_ensures(id@);
                assert(ids[k as int] == id@);
            }
            return Some(k);
        }
        k = k + 1;
    }
    proof {
        ids.index_of_first_ensures(id@);
    }
    None
}

impl OrderItem {
    #[verifier::type_invariant]
    spec fn inv(self) -> bool {
        self.count >= 1 && self@.cost() <= u64::MAX
    }

    /// Records one unit of `product` in `order`: the line of a product
    /// already ordered counts one more, any other product gets a new line at
    /// the end. The subtotal is then computed anew over all lines. Where a
    /// count or the subtotal would not fit, nothing is changed.
    pub fn new(order: &mut Order, product: Product) -> (added: Result<(), OrderError>)
        ensures
            added is Ok <==> representable(add_unit(old(order)@, product@)),
            final(order)@ == match added {
                Ok(()) => add_unit(old(order)@, product@),
                Err(_) => old(order)@,
            },
    {
        proof {
            use_type_invariant(&*order);
        }
        let ghost before = order@;
        let ghost after = add_unit(before, product@);
        let found = position(&order.items, &product.id);
        proof {
            line_ids(before).index_of_first_ensures(product@.id);
        }
        // The line that changes, its new count and its new cost.
        let (place, count, cost): (usize, u64, u64) = match found {
            Some(k) => {
                let line = &order.items[k];
                proof {
                    use_type_invariant(line);
                }
                if line.count == u64::MAX {
                    assert(after[k as int].count > u64::MAX);
                    return Err(OrderError::Overflow);
                }
                match cost_of(&line.item, line.count + 1) {
                    Some(cost) => (k, line.count + 1, cost),
                    None => {
                        proof {
                            lemma_subtotal_step(after, k as int);
                            lemma_subtotal_prefix(after, k as int + 1);
                        }
                        return Err(OrderError::Overflow);
                    },
                }
            },
            None => {
                match cost_of(&product, 1) {
                    Some(cost) => (order.items.len(), 1, cost),
                    None => {
                        proof {
                            lemma_subtotal_step(after, before.len() as int);
                            lemma_subtotal_prefix(after, before.len() as int + 1);
                        }
                        return Err(OrderError::Overflow);
                    },
                }
            },
        };
        // The subtotal, anew over all lines.
        let mut total: u64 = 0;
        let mut j: usize = 0;
        while j < order.items.len()
            invariant
                j <= order.items@.len(),
                before == lines_of(order.items@),
                before == old(order)@,
                after == add_unit(before, product@),
                after.len() >= before.len(),
                0 <= place < after.len(),
                after[place as int].cost() == cost,
                forall|i: int| 0 <= i < before.len() && i != place ==> after[i] == before[i],
                total == subtotal(after.take(j as int)),
            decreases order.items@.len() - j,
        {
            let line_cost = if j == place {
                cost
            } else {
                OrderItem::calculate_cost(&order.items[j])
            };
            proof {
                lemma_subtotal_step(after, j as int);
                lemma_subtotal_prefix(after, j as int + 1);
            }
            total = match total.checked_add(line_cost) {
                Some(sum) => sum,
                None => {
                    return Err(OrderError::Overflow);
                },
            };
            j = j + 1;
        }
        if found.is_none() {
            proof {
                lemma_subtotal_step(after, j as int);
                lemma_subtotal_prefix(after, j as int + 1);
            }
            total = match total.checked_add(cost) {
                Some(sum) => sum,
                None => {
                    return Err(OrderError::Overflow);
                },
            };
        }
        assert(total == subtotal(after)) by {
            assert(after.take(after.len() as int) =~= after);
        }
        // Lines and subtotal change together: the order is taken out whole
        // and put back whole.
        let mut taken = Order::new();
        proof {
            use_type_invariant(&taken);
            lemma_add_unit_wf(before, product@);
        }
        std::mem::swap(order, &mut taken);
        let Order { mut items, total: _ } = taken;
        if found.is_some() {
            items[place].count = count;
        } else {
            items.push(OrderItem { count: 1, item: product });
        }
        assert(lines_of(items@) =~= after);
        *order = Order { items, total };
        Ok(())
    }

    /// What the line costs: each of its units at the discounted price where
    /// the count has reached the discount's threshold, else at the plain price.
    pub fn calculate_cost(product: &OrderItem) -> (cost: u64)
        ensures
            cost == product@.cost(),
            cost == product@.count * unit_price(product@.product, product@.count),
    {
        proof {
            use_type_invariant(product);
        }
        product.count * unit_price_of(&product.item, product.count)
    }

    /// The number of units in the line, at least one.
    pub fn count(&self) -> (count: u64)
        ensures
            count == self@.count,
            count >= 1,
    {
        proof {
            use_type_invariant(self);
        }
        self.count
    }

    /// The product of the line.
    pub fn item(&self) -> (item: &Product)
        ensures
            item@ == self@.product,
    {
        &self.item
    }
}

/// The lines of one shopping session and their subtotal.
#[derive(Debug)]
pub struct Order {
    items: Vec<OrderItem>,
    total: u64,
}

impl View for Order {
    type V = Seq<LineItem>;

    closed spec fn view(&self) -> Seq<LineItem> {
        lines_of(self.items@)
    }
}

impl Order {
    #[verifier::type_invariant]
    spec fn inv(self) -> bool {
        &&& lines_wf(self@)
        &&& self.total == subtotal(self@)
    }

    /// An order without lines.
    pub fn new() -> (order: Order)
        ensures
            order@ == Seq::<LineItem>::empty(),
    {
        let order = Order { items: Vec::new(), total: 0 };
        order
    }

    /// Records one unit of `product`, of which the order keeps a copy. Where
    /// a count or the subtotal would not fit, nothing is changed.
    pub fn add_to_order(&mut self, product: &Product) -> (added: Result<(), OrderError>)
        ensures
            added is Ok <==> representable(add_unit(old(self)@, product@)),
            final(self)@ == match added {
                Ok(()) => add_unit(old(self)@, product@),
                Err(_) => old(self)@,
            },
    {
        OrderItem::new(self, product.clone())
    }

    /// The lines, in the order of first scan. Each product has at most one
    /// line, and each line at least one unit.
    pub fn items(&self) -> (items: &Vec<OrderItem>)
        ensures
            items@.len() == self@.len(),
            forall|i: int| 0 <= i < items@.len() ==> (#[trigger] items@[i])@ == self@[i],
            lines_wf(self@),
    {
        proof {
            use_type_invariant(self);
        }
        &self.items
    }

    /// The subtotal: the sum of what the lines cost, before any discount on
    /// the whole order.
    pub fn total(&self) -> (total: u64)
        ensures
            total == subtotal(self@),
    {
        proof {
            use_type_invariant(self);
        }
        self.total
    }
}

} // verus!
