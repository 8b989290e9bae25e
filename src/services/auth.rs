use crate::bindings::{bcrypt_accepts, bcrypt_hash, bcrypt_verify, jwt_text, now_unix, sign_jwt};
use crate::error::ApiError;
use crate::text::owned;
use vstd::prelude::*;

verus! {

/// Lifetime of an issued token, in seconds.
pub const TOKEN_TTL_SECS: i64 = 3600;

/// The bcrypt work factor for stored passwords.
pub const BCRYPT_COST: u32 = 4;

/// What a bearer token asserts: whose it is and until when (Unix seconds).
pub struct Claims {
    sub: String,
    exp: usize,
}

impl Claims {
    pub closed spec fn spec_sub(&self) -> Seq<char> {
        self.sub@
    }

    pub closed spec fn spec_exp(&self) -> usize {
        self.exp
    }

    pub fn new(sub: String, exp: usize) -> (r: Claims)
        ensures
            r.spec_sub() == sub@,
            r.spec_exp() == exp,
    {
        Claims { sub, exp }
    }

    pub fn get_sub(&self) -> (r: &str)
        ensures
            r@ == self.spec_sub(),
    {
        self.sub.as_str()
    }

    pub fn get_exp(&self) -> (r: usize)
        ensures
            r == self.spec_exp(),
    {
        self.exp
    }
}

/// A salted one-way hash of the password; a hashing failure is an internal error.
pub fn hash_password(password: &str) -> (r: Result<String, ApiError>)
    ensures
        r is Err ==> r == Err::<String, ApiError>(ApiError::InternalServerError),
        r matches Ok(h) ==> bcrypt_accepts(password@, h@) == Some(true),
{
    match bcrypt_hash(password, BCRYPT_COST) {
        Some(h) => Ok(h),
        None => Err(ApiError::InternalServerError),
    }
}

/// Whether the password matches the stored hash; an unreadable hash is an internal error,
/// not a mismatch.
pub fn verify_password(password: &str, hashed: &str) -> (r: Result<bool, ApiError>)
    ensures
        r == match bcrypt_accepts(password@, hashed@) {
            Some(b) => Ok::<bool, ApiError>(b),
            None => Err(ApiError::InternalServerError),
        },
{
    match bcrypt_verify(password, hashed) {
        Some(b) => Ok(b),
        None => Err(ApiError::InternalServerError),
    }
}

/// The claims of a token for `user_id` issued at `now`: they expire one hour later.
pub fn claims_at(user_id: &str, now: i64) -> (r: Result<Claims, ApiError>)
    ensures
        0 <= now && now + TOKEN_TTL_SECS <= usize::MAX ==> (r matches Ok(c) && c.spec_sub()
            == user_id@ && c.spec_exp() == now + TOKEN_TTL_SECS),
        !(0 <= now && now + TOKEN_TTL_SECS <= usize::MAX) ==> r == Err::<Claims, ApiError>(
            ApiError::InternalServerError,
        ),
{
    if now < 0 || now as u64 > usize::MAX as u64 - TOKEN_TTL_SECS as u64 {
        return Err(ApiError::InternalServerError);
    }
    let exp = now as usize + TOKEN_TTL_SECS as usize;
    Ok(Claims::new(owned(user_id), exp))
}

/// The claims of a token for `user_id` issued now.
pub fn issue_claims(user_id: &str) -> (r: Result<Claims, ApiError>)
    ensures
        r matches Ok(c) ==> c.spec_sub() == user_id@ && c.spec_exp() >= TOKEN_TTL_SECS,
        r is Err ==> r == Err::<Claims, ApiError>(ApiError::InternalServerError),
{
    claims_at(user_id, now_unix())
}

/// The signed token for the claims; a signing failure is an internal error.
pub fn sign_claims(claims: &Claims, secret: &str) -> (r: Result<String, ApiError>)
    ensures
        match jwt_text(claims.spec_sub(), claims.spec_exp(), secret@) {
            Some(t) => (r matches Ok(x) && x@ == t),
            None => r == Err::<String, ApiError>(ApiError::InternalServerError),
        },
{
    match sign_jwt(claims, secret) {
        Some(t) => Ok(t),
        None => Err(ApiError::InternalServerError),
    }
}

/// A token for `user_id`, signed with `secret`, that expires one hour from now.
pub fn generate_jwt(user_id: &str, secret: &str) -> (r: Result<String, ApiError>)
    ensures
        r matches Ok(t) ==> exists|exp: usize|
            exp >= TOKEN_TTL_SECS && #[trigger] jwt_text(user_id@, exp, secret@) == Some(t@),
        r is Err ==> r == Err::<String, ApiError>(ApiError::InternalServerError),
{
    let claims = issue_claims(user_id)?;
    sign_claims(&claims, secret)
}

} // verus!
