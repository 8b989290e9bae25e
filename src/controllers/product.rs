use crate::money::Money;
use vstd::prelude::*;

verus! {

/// A request to create a product, or to replace its name, description and price.
pub struct CreateProductRequest {
    pub name: String,
    pub description: Option<String>,
    pub price: Money,
    pub status: Option<String>,
}

/// A request to change a product's status.
pub struct UpdateProductStatusRequest {
    pub status: String,
}

} // verus!
