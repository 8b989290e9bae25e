use crate::money::Money;
use vstd::prelude::*;

verus! {

/// One line of an order, with the unit price captured when the order was placed.
#[derive(Clone, Copy, Debug, PartialEq, Eq, Structural)]
pub struct Model {
    pub id: u128,
    pub order_id: u128,
    pub product_id: u128,
    pub quantity: i32,
    pub price: Money,
}

} // verus!
