//! Waiting at table.

use vstd::prelude::*;

verus! {

/// Takes an order at the table.
#[allow(dead_code)]
fn take_order() {
}

/// Brings an order to the table.
pub fn serve_order() {
}

/// Takes the payment for a meal.
#[allow(dead_code)]
fn take_payment() {
}

} // verus!
