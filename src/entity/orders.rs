use crate::money::Money;
use vstd::prelude::*;

verus! {

/// An order header.
pub struct Model {
    pub id: u128,
    pub user_id: u128,
    pub total_price: Money,
    pub status: String,
    /// Seconds since the Unix epoch.
    pub created_at: i64,
}

impl Model {
    pub fn duplicate(&self) -> (r: Model)
        ensures
            r == *self,
    {
        Model {
            id: self.id,
            user_id: self.user_id,
            total_price: self.total_price,
            status: self.status.clone(),
            created_at: self.created_at,
        }
    }
}

} // verus!
