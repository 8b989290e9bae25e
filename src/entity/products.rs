use crate::money::Money;
use vstd::prelude::*;

verus! {

/// A catalog entry.
pub struct Model {
    pub id: u128,
    pub name: String,
    pub description: Option<String>,
    pub price: Money,
    /// One of `available`, `reserved`, `sold`.
    pub status: String,
    /// Seconds since the Unix epoch.
    pub created_at: i64,
}

impl Model {
    pub fn duplicate(&self) -> (r: Model)
        ensures
            r == *self,
    {
        let description = match &self.description {
            Some(d) => Some(d.clone()),
            None => None,
        };
        Model {
            id: self.id,
            name: self.name.clone(),
            description,
            price: self.price,
            status: self.status.clone(),
            created_at: self.created_at,
        }
    }
}

} // verus!
