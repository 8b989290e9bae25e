use vstd::prelude::*;

verus! {

/// A registered account.
pub struct Model {
    pub id: u128,
    pub username: String,
    pub email: String,
    pub hashed_password: String,
    /// Seconds since the Unix epoch.
    pub created_at: i64,
}

impl Model {
    pub fn duplicate(&self) -> (r: Model)
        ensures
            r == *self,
    {
        Model {
            id: self.id,
            username: self.username.clone(),
            email: self.email.clone(),
            hashed_password: self.hashed_password.clone(),
            created_at: self.created_at,
        }
    }
}

} // verus!
