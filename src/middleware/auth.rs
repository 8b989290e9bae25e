use crate::services::auth::Claims;
use crate::bindings::{id_text, uuid_text};
use crate::text::{drop_chars, has_prefix, owned, same_text};
use vstd::prelude::*;

verus! {

/// Clock skew tolerated when checking a token's expiry, in seconds.
pub const TOKEN_LEEWAY_SECS: i64 = 60;

/// Routes under `/auth` are reachable without a token.
pub open spec fn is_auth_route(path: Seq<char>) -> bool {
    5 <= path.len() && path.subrange(0, 5) == "/auth"@
}

/// The token of an `Authorization` header of the form `Bearer <token>`.
pub open spec fn bearer_token(header: Seq<char>) -> Option<Seq<char>> {
    if 7 <= header.len() && header.subrange(0, 7) == "Bearer "@ {
        Some(header.subrange(7, header.len() as int))
    } else {
        None
    }
}

/// A token whose expiry lies more than the leeway before `now`.
pub open spec fn expired(exp: usize, now: i64) -> bool {
    exp < now - TOKEN_LEEWAY_SECS
}

/// First step for a request: let it through, check its token, or refuse it.
pub enum Gate {
    Open,
    Check(String),
    Refuse(String),
}

/// Outcome for a request: exempt from tokens, granted to a subject, or denied.
pub enum Access {
    Exempt,
    Granted(String),
    Denied(String),
}

impl Access {
    /// The status with which a denied request is answered.
    pub fn status_code(&self) -> (r: Option<u16>)
        ensures
            self is Denied ==> r == Some(401u16),
            !(self is Denied) ==> r is None,
    {
        match self {
            Access::Denied(_) => Some(401),
            _ => None,
        }
    }
}

/// Whether a token's subject is the user named in a request path: a token lets its holder
/// act for that user only.
pub fn subject_is_user(subject: &str, user_id: u128) -> (r: bool)
    ensures
        r == (subject@ == uuid_text(user_id)),
{
    let text = id_text(user_id);
    same_text(subject, text.as_str())
}

/// The gateway that requires a valid bearer token on every route but `/auth/*`.
pub struct AuthMiddleware;

/// The gateway bound to the service it protects.
pub struct AuthMiddlewareMiddleware<S> {
    pub service: S,
}

impl<S> AuthMiddlewareMiddleware<S> {
    pub fn new(service: S) -> (r: AuthMiddlewareMiddleware<S>)
        ensures
            r.service == service,
    {
        AuthMiddlewareMiddleware { service }
    }
}

impl AuthMiddleware {
    /// Which requests need a token, and the token a request carries.
    pub fn inspect(&self, path: &str, authorization: Option<&str>) -> (r: Gate)
        ensures
            is_auth_route(path@) ==> r is Open,
            !is_auth_route(path@) ==> match authorization {
                Some(h) => match bearer_token(h@) {
                    Some(t) => (r matches Gate::Check(x) && x@ == t),
                    None => (r matches Gate::Refuse(m) && m@ == "Missing or invalid token"@),
                },
                None => (r matches Gate::Refuse(m) && m@ == "Missing or invalid token"@),
            },
    {
        proof {
            reveal_strlit("/auth");
            reveal_strlit("Bearer ");
            reveal_strlit("Missing or invalid token");
        }
        if has_prefix(path, "/auth") {
            return Gate::Open;
        }
        match authorization {
            Some(h) => {
                if has_prefix(h, "Bearer ") {
                    Gate::Check(drop_chars(h, 7))
                } else {
                    Gate::Refuse(owned("Missing or invalid token"))
                }
            },
            None => Gate::Refuse(owned("Missing or invalid token")),
        }
    }

    /// Decides on the claims that decoding the token gave: `None` when the token was
    /// malformed or not signed with the secret.
    pub fn judge_claims(&self, claims: Option<Claims>, now: i64) -> (r: Access)
        ensures
            match claims {
                Some(c) => if expired(c.spec_exp(), now) {
                    r matches Access::Denied(m) && m@ == "Invalid or expired token"@
                } else {
                    r matches Access::Granted(s) && s@ == c.spec_sub()
                },
                None => (r matches Access::Denied(m) && m@ == "Invalid or expired token"@),
            },
    {
        proof {
            reveal_strlit("Invalid or expired token");
        }
        match claims {
            Some(c) => {
                if (c.get_exp() as i128) < now as i128 - TOKEN_LEEWAY_SECS as i128 {
                    Access::Denied(owned("Invalid or expired token"))
                } else {
                    Access::Granted(owned(c.get_sub()))
                }
            },
            None => Access::Denied(owned("Invalid or expired token")),
        }
    }

    /// The whole decision for one request, given the claims decoded from its bearer token
    /// (`None` when it has none or decoding failed).
    pub fn decide(
        &self,
        path: &str,
        authorization: Option<&str>,
        claims: Option<Claims>,
        now: i64,
    ) -> (r: Access)
        ensures
            is_auth_route(path@) ==> r is Exempt,
            !is_auth_route(path@) && authorization is Some && bearer_token(
                authorization->Some_0@,
            ) is Some && claims is Some && !expired(claims->Some_0.spec_exp(), now) ==> r is Granted,
            !is_auth_route(path@) ==> (r is Granted || r is Denied),
            !is_auth_route(path@) && (authorization is None || bearer_token(
                authorization->Some_0@,
            ) is None || claims is None || expired(claims->Some_0.spec_exp(), now)) ==> r is Denied,
            r matches Access::Granted(s) ==> (claims matches Some(c) && s@ == c.spec_sub()),
            !is_auth_route(path@) && (authorization is None || bearer_token(
                authorization->Some_0@,
            ) is None) ==> (r matches Access::Denied(m) && m@ == "Missing or invalid token"@),
            !is_auth_route(path@) && authorization is Some && bearer_token(
                authorization->Some_0@,
            ) is Some && (claims is None || expired(claims->Some_0.spec_exp(), now)) ==> (r matches Access::Denied(m) && m@ == "Invalid or expired token"@),
    {
        match self.inspect(path, authorization) {
            Gate::Open => Access::Exempt,
            Gate::Refuse(m) => Access::Denied(m),
            Gate::Check(_) => self.judge_claims(claims, now),
        }
    }
}

} // verus!
