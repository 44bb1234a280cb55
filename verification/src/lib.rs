//! A point-of-sale pricing engine.
//!
//! A catalog of products, each with an optional volume discount, and an optional
//! discount on the whole order are loaded once as [`rules::PromotionalRules`].
//! An [`order::Order`] accumulates scanned units, one line per product, and keeps
//! its subtotal equal to the sum of its lines at all times. A
//! [`checkout::Checkout`] binds the two and answers with the amount to pay.
//!
//! All amounts are whole minor currency units (pence), so sums are exact. The
//! only rounding is the one that turns a percentage of the subtotal into a
//! whole minor unit when the total is read.
//!
//! Nothing here panics. Rule data that does not load is refused with a
//! [`rules::ParseError`]. A scan of a code that the rules do not know is refused
//! with [`checkout::ScanError::UnknownProduct`], and a unit with which a count
//! or the subtotal would leave the range of `u64` with
//! [`checkout::ScanError::Overflow`]; a refused scan changes nothing.
//!
//! [`laws`] holds what is proved of every line, every total and every session.

pub mod checkout;
pub mod laws;
pub mod money;
pub mod order;
pub mod rules;
