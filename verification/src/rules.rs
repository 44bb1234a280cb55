//! The promotional rules of a shop: its catalog of products, each with an
//! optional volume discount, and the optional discount on a whole order.
//!
//! Rule data arrives as a [`RuleRecord`], in which any field may be absent and
//! any number may be out of range. [`PromotionalRules::load`] turns a record
//! into rules or says what is wrong with it.

use vstd::prelude::*;

verus! {

/// A volume discount as the pricing rule reads it: from `threshold` units on,
/// every unit of the line costs `price`.
pub struct VolumeDiscountModel {
    pub threshold: nat,
    pub price: nat,
}

/// A product as the pricing rule reads it.
#[verifier::ext_equal]
pub struct ProductModel {
    pub id: Seq<char>,
    pub name: Seq<char>,
    pub price: nat,
    pub discount: Option<VolumeDiscountModel>,
}

/// The discount on a whole order as the pricing rule reads it: a subtotal of
/// `threshold` or more is reduced by `percentage` percent.
pub struct OrderDiscountModel {
    pub threshold: nat,
    pub percentage: nat,
}

/// A set of promotional rules as the pricing rule reads it.
#[verifier::ext_equal]
pub struct RulesModel {
    pub version: Option<int>,
    pub order_discount: Option<OrderDiscountModel>,
    pub products: Seq<ProductModel>,
}

impl RulesModel {
    /// The product identifiers, in catalog order.
    pub open spec fn ids(self) -> Seq<Seq<char>> {
        Seq::new(self.products.len(), |i: int| self.products[i].id)
    }

    /// The product with identifier `code`: an exact match, or nothing.
    pub open spec fn lookup(self, code: Seq<char>) -> Option<ProductModel> {
        match self.ids().index_of_first(code) {
            Some(i) => Some(self.products[i]),
            None => None,
        }
    }

    /// No identifier occurs twice, and an order discount has a threshold of at
    /// least one minor unit and a percentage of at most 100.
    pub open spec fn wf(self) -> bool {
        &&& self.ids().no_duplicates()
        &&& match self.order_discount {
            Some(d) => d.threshold >= 1 && d.percentage <= 100,
            None => true,
        }
    }
}

/// Why a record was refused.
#[derive(Clone, Copy, Debug, PartialEq, Eq, Structural)]
pub enum ParseError {
    /// A required field is absent.
    MissingField,
    /// A number is negative, or a percentage is above 100.
    InvalidNumber,
    /// Two products have the same identifier.
    DuplicateProduct,
}

/// One product of a [`RuleRecord`], as received. Amounts are in minor units.
#[derive(Clone, Debug)]
pub struct ProductRecord {
    /// Required.
    pub id: Option<String>,
    /// Required.
    pub name: Option<String>,
    /// Required, not negative.
    pub price: Option<i64>,
    /// Units from which the discount applies; absent or zero for none.
    pub discount_threshold: Option<i64>,
    /// Price of each unit once the threshold is reached.
    pub discount_price: Option<i64>,
}

impl ProductRecord {
    /// Identifier, name and price are there.
    pub open spec fn complete(self) -> bool {
        self.id is Some && self.name is Some && self.price is Some
    }

    /// No number that is there is negative.
    pub open spec fn numbers_valid(self) -> bool {
        &&& self.price matches Some(p) ==> p >= 0
        &&& self.discount_threshold matches Some(t) ==> t >= 0
        &&& self.discount_price matches Some(d) ==> d >= 0
    }

    /// The volume discount that the record defines: one only where both of
    /// its parts are there and the threshold is at least one unit.
    pub open spec fn volume_discount(self) -> Option<VolumeDiscountModel> {
        match (self.discount_threshold, self.discount_price) {
            (Some(t), Some(d)) => if t >= 1 {
                Some(VolumeDiscountModel { threshold: t as nat, price: d as nat })
            } else {
                None
            },
            _ => None,
        }
    }

    /// The product that a complete record with valid numbers stands for.
    pub open spec fn product(self) -> ProductModel
        recommends
            self.complete(),
            self.numbers_valid(),
    {
        ProductModel {
            id: self.id.unwrap()@,
            name: self.name.unwrap()@,
            price: self.price.unwrap() as nat,
            discount: self.volume_discount(),
        }
    }

    /// What is wrong with the record, an absent field before a bad number.
    pub open spec fn error(self) -> Option<ParseError> {
        if !self.complete() {
            Some(ParseError::MissingField)
        } else if !self.numbers_valid() {
            Some(ParseError::InvalidNumber)
        } else {
            None
        }
    }
}

/// Rule data as received. Amounts are in minor units, the percentage in whole
/// percent.
#[derive(Clone, Debug)]
pub struct RuleRecord {
    /// Optional; carried along unread.
    pub version: Option<i64>,
    /// Required, not negative; zero for no discount on the order.
    pub total_discount_threshold: Option<i64>,
    /// Required, from 0 to 100.
    pub total_discount_percentage: Option<i64>,
    /// Required.
    pub products: Option<Vec<ProductRecord>>,
}

impl RuleRecord {
    /// The products of the record, none where the field is absent.
    pub open spec fn entries(self) -> Seq<ProductRecord> {
        match self.products {
            Some(products) => products@,
            None => Seq::empty(),
        }
    }

    /// Every required field is there, in the record and in each product.
    pub open spec fn complete(self) -> bool {
        &&& self.total_discount_threshold is Some
        &&& self.total_discount_percentage is Some
        &&& self.products is Some
        &&& forall|i: int| 0 <= i < self.entries().len() ==> (#[trigger] self.entries()[i]).complete()
    }

    /// Every number is in the range of its field.
    pub open spec fn numbers_valid(self) -> bool {
        &&& self.total_discount_threshold matches Some(t) ==> t >= 0
        &&& self.total_discount_percentage matches Some(p) ==> 0 <= p <= 100
        &&& forall|i: int|
            0 <= i < self.entries().len() ==> (#[trigger] self.entries()[i]).numbers_valid()
    }

    /// No two products of a complete record share an identifier.
    pub open spec fn ids_distinct(self) -> bool {
        forall|i: int, j: int|
            0 <= i < j < self.entries().len() ==> (#[trigger] self.entries()[i]).id.unwrap()@ != (
            #[trigger] self.entries()[j]).id.unwrap()@
    }

    /// The discount on the order that the record defines: none where the
    /// threshold is zero.
    pub open spec fn order_discount(self) -> Option<OrderDiscountModel> {
        if self.total_discount_threshold.unwrap() >= 1 {
            Some(
                OrderDiscountModel {
                    threshold: self.total_discount_threshold.unwrap() as nat,
                    percentage: self.total_discount_percentage.unwrap() as nat,
                },
            )
        } else {
            None
        }
    }

    /// The rules that a record without an error stands for.
    pub open spec fn rules(self) -> RulesModel
        recommends
            self.load_error() is None,
    {
        RulesModel {
            version: match self.version {
                Some(v) => Some(v as int),
                None => None,
            },
            order_discount: self.order_discount(),
            products: Seq::new(self.entries().len(), |i: int| self.entries()[i].product()),
        }
    }

    /// What is wrong with the record, if anything: an absent field anywhere
    /// comes before a bad number anywhere, and that before a repeated
    /// identifier.
    pub open spec fn load_error(self) -> Option<ParseError> {
        if !self.complete() {
            Some(ParseError::MissingField)
        } else if !self.numbers_valid() {
            Some(ParseError::InvalidNumber)
        } else if !self.ids_distinct() {
            Some(ParseError::DuplicateProduct)
        } else {
            None
        }
    }
}

/// From `threshold` units of a product on, every unit of its line costs
/// `price`. A threshold of zero never applies.
#[derive(Clone, Copy, Debug, PartialEq, Eq, Structural)]
pub struct VolumeDiscount {
    pub threshold: u64,
    pub price: u64,
}

impl View for VolumeDiscount {
    type V = VolumeDiscountModel;

    open spec fn view(&self) -> VolumeDiscountModel {
        VolumeDiscountModel { threshold: self.threshold as nat, price: self.price as nat }
    }
}

/// A subtotal of `threshold` or more is reduced by `percentage` percent.
#[derive(Clone, Copy, Debug, PartialEq, Eq, Structural)]
pub struct OrderDiscount {
    pub threshold: u64,
    pub percentage: u64,
}

impl View for OrderDiscount {
    type V = OrderDiscountModel;

    open spec fn view(&self) -> OrderDiscountModel {
        OrderDiscountModel { threshold: self.threshold as nat, percentage: self.percentage as nat }
    }
}

/// A product of the catalog. Prices are in minor units.
#[derive(Debug)]
pub struct Product {
    pub id: String,
    pub name: String,
    pub price: u64,
    pub discount: Option<VolumeDiscount>,
}

impl View for Product {
    type V = ProductModel;

    open spec fn view(&self) -> ProductModel {
        ProductModel {
            id: self.id@,
            name: self.name@,
            price: self.price as nat,
            discount: match self.discount {
                Some(d) => Some(d@),
                None => None,
            },
        }
    }
}

impl Clone for Product {
    fn clone(&self) -> (copy: Self)
        ensures
            copy == *self,
    {
        Product {
            id: self.id.clone(),
            name: self.name.clone(),
            price: self.price,
            discount: self.discount,
        }
    }
}

impl Product {
    /// Reads one product of a record.
    pub fn from_record(record: &ProductRecord) -> (read: Result<Product, ParseError>)
        ensures
            match read {
                Ok(product) => record.error() is None && product@ == record.product(),
                Err(e) => record.error() == Some(e),
            },
    {
        let (id, name, price) = match (&record.id, &record.name, record.price) {
            (Some(id), Some(name), Some(price)) => (id, name, price),
            _ => {
                return Err(ParseError::MissingField);
            },
        };
        if price < 0 {
            return Err(ParseError::InvalidNumber);
        }
        let threshold: u64 = match record.discount_threshold {
            Some(t) => {
                if t < 0 {
                    return Err(ParseError::InvalidNumber);
                }
                t as u64
            },
            None => 0,
        };
        let discount = match record.discount_price {
            Some(d) => {
                if d < 0 {
                    return Err(ParseError::InvalidNumber);
                }
                if threshold >= 1 {
                    Some(VolumeDiscount { threshold, price: d as u64 })
                } else {
                    None
                }
            },
            None => None,
        };
        Ok(Product { id: id.clone(), name: name.clone(), price: price as u64, discount })
    }
}

/// Promotional rules that loaded: a catalog without repeated identifiers, and
/// the discount on the whole order where there is one. Nothing changes them.
#[derive(Debug)]
pub struct PromotionalRules {
    version: Option<i64>,
    order_discount: Option<OrderDiscount>,
    products: Vec<Product>,
}

impl View for PromotionalRules {
    type V = RulesModel;

    closed spec fn view(&self) -> RulesModel {
        RulesModel {
            version: match self.version {
                Some(v) => Some(v as int),
                None => None,
            },
            order_discount: match self.order_discount {
                Some(d) => Some(d@),
                None => None,
            },
            products: Seq::new(self.products@.len(), |i: int| self.products@[i]@),
        }
    }
}

/// Whether no two of `products` share an identifier.
fn ids_are_distinct(products: &Vec<Product>) -> (distinct: bool)
    ensures
        distinct == (forall|i: int, j: int|
            0 <= i < j < products@.len() ==> (#[trigger] products@[i]).id@ != (
            #[trigger] products@[j]).id@),
{
    let mut j: usize = 0;
    while j < products.len()
        invariant
            j <= products@.len(),
            forall|a: int, b: int|
                0 <= a < b < j ==> (#[trigger] products@[a]).id@ != (#[trigger] products@[b]).id@,
        decreases products@.len() - j,
    {
        let mut i: usize = 0;
        while i < j
            invariant
                i <= j < products@.len(),
                forall|a: int| 0 <= a < i ==> (#[trigger] products@[a]).id@ != products@[j as int].id@,
            decreases j - i,
        {
            if products[i].id == products[j].id {
                return false;
            }
            i = i + 1;
        }
        j = j + 1;
    }
    true
}

impl PromotionalRules {
    #[verifier::type_invariant]
    spec fn inv(self) -> bool {
        self@.wf()
    }

    /// Loads rules from a record. The record is refused where a required
    /// field is absent, a number is out of range or an identifier is repeated.
    pub fn load(rule_data: &RuleRecord) -> (loaded: Result<PromotionalRules, ParseError>)
        ensures
            match loaded {
                Ok(rules) => {
                    &&& rule_data.load_error() is None
                    &&& rules@ == rule_data.rules()
                    &&& rules@.wf()
                },
                Err(e) => rule_data.load_error() == Some(e),
            },
    {
        let (threshold, percentage, entries) = match (
            rule_data.total_discount_threshold,
            rule_data.total_discount_percentage,
            &rule_data.products,
        ) {
            (Some(threshold), Some(percentage), Some(entries)) => (threshold, percentage, entries),
            _ => {
                return Err(ParseError::MissingField);
            },
        };
        let mut i: usize = 0;
        while i < entries.len()
            invariant
                i <= entries@.len(),
                rule_data.entries() == entries@,
                forall|k: int| 0 <= k < i ==> (#[trigger] entries@[k]).complete(),
            decreases entries@.len() - i,
        {
            let entry = &entries[i];
            if entry.id.is_none() || entry.name.is_none() || entry.price.is_none() {
                return Err(ParseError::MissingField);
            }
            i = i + 1;
        }
        if threshold < 0 || percentage < 0 || percentage > 100 {
            return Err(ParseError::InvalidNumber);
        }
        let mut products: Vec<Product> = Vec::new();
        let mut i: usize = 0;
        while i < entries.len()
            invariant
                i <= entries@.len(),
                products@.len() == i,
                rule_data.entries() == entries@,
                rule_data.complete(),
                forall|k: int| 0 <= k < i ==> (#[trigger] entries@[k]).numbers_valid(),
                forall|k: int| 0 <= k < i ==> (#[trigger] products@[k])@ == entries@[k].product(),
            decreases entries@.len() - i,
        {
            match Product::from_record(&entries[i]) {
                Ok(product) => {
                    products.push(product);
                },
                Err(e) => {
                    return Err(e);
                },
            }
            i = i + 1;
        }
        let distinct = ids_are_distinct(&products);
        proof {
            let records = rule_data.entries();
            assert forall|k: int| 0 <= k < products@.len() implies (#[trigger] products@[k]).id@
                == records[k].id.unwrap()@ by {}
            if distinct {
                assert forall|a: int, b: int| 0 <= a < b < records.len() implies (
                #[trigger] records[a]).id.unwrap()@ != (#[trigger] records[b]).id.unwrap()@ by {
                    assert(products@[a].id@ != products@[b].id@);
                }
            }
        }
        if !distinct {
            return Err(ParseError::DuplicateProduct);
        }
        let order_discount = if threshold >= 1 {
            Some(OrderDiscount { threshold: threshold as u64, percentage: percentage as u64 })
        } else {
            None
        };
        let rules = PromotionalRules { version: rule_data.version, order_discount, products };
        proof {
            use_type_invariant(&rules);
            assert(rules@.products =~= rule_data.rules().products);
        }
        Ok(rules)
    }

    /// The product with identifier `code`: an exact match, or nothing.
    pub fn find_product(&self, code: &str) -> (found: Option<&Product>)
        ensures
            match found {
                Some(product) => self@.lookup(code@) == Some(product@),
                None => self@.lookup(code@) is None,
            },
    {
        let wanted: String = code.to_owned();
        let mut i: usize = 0;
        while i < self.products.len()
            invariant
                i <= self.products@.len(),
                wanted@ == code@,
                forall|k: int| 0 <= k < i ==> (#[trigger] self@.ids()[k]) != code@,
            decreases self.products@.len() - i,
        {
            if self.products[i].id == wanted {
                proof {
                    self@.ids().index_of_first_ensures(code@);
                    assert(self@.ids()[i as int] == code@);
                }
                return Some(&self.products[i]);
            }
            i = i + 1;
        }
        proof {
            self@.ids().index_of_first_ensures(code@);
        }
        None
    }

    /// The version that the record gave, if it gave one.
    pub fn version(&self) -> (version: Option<i64>)
        ensures
            match version {
                Some(v) => self@.version == Some(v as int),
                None => self@.version is None,
            },
    {
        self.version
    }

    /// The discount on the whole order, if there is one. Its threshold is
    /// at least one minor unit and its percentage at most 100.
    pub fn order_discount(&self) -> (discount: Option<OrderDiscount>)
        ensures
            match discount {
                Some(d) => self@.order_discount == Some(d@),
                None => self@.order_discount is None,
            },
            self@.wf(),
    {
        proof {
            use_type_invariant(self);
        }
        self.order_discount
    }

    /// The catalog, in the order of the record. No identifier occurs twice.
    pub fn products(&self) -> (products: &Vec<Product>)
        ensures
            products@.len() == self@.products.len(),
            forall|i: int| 0 <= i < products@.len() ==> (#[trigger] products@[i])@ == self@.products[i],
            self@.wf(),
    {
        proof {
            use_type_invariant(self);
        }
        &self.products
    }
}

} // verus!
