use vstd::prelude::*;

verus! {

/// A request to add a quantity of a product to a cart.
#[derive(Clone, Copy, Debug)]
pub struct AddToCartRequest {
    pub product_id: u128,
    pub quantity: i32,
}

} // verus!
