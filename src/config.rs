use crate::error::ApiError;
use crate::text::owned;
use vstd::prelude::*;

verus! {

/// Settings fixed at startup.
#[derive(Clone)]
pub struct AppConfig {
    pub jwt_secret: String,
}

impl AppConfig {
    /// The configuration from the token signing secret, which must be present.
    pub fn new(jwt_secret: Option<String>) -> (r: Result<AppConfig, ApiError>)
        ensures
            jwt_secret is None ==> r matches Err(ApiError::AuthenticationError(_)),
            jwt_secret matches Some(s) ==> (r matches Ok(c) && c.jwt_secret == s),
    {
        match jwt_secret {
            Some(s) => Ok(AppConfig { jwt_secret: s }),
            None => Err(
                ApiError::AuthenticationError(owned("JWT_SECRET is missing from the environment")),
            ),
        }
    }
}

} // verus!
