use vstd::prelude::*;

verus! {

/// One line of a user's cart.
#[derive(Clone, Copy, Debug, PartialEq, Eq, Structural)]
pub struct Model {
    pub id: u128,
    pub user_id: u128,
    pub product_id: u128,
    pub quantity: i32,
}

} // verus!
