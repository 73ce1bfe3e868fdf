//! The authentication middleware's decision logic: reading the bearer
//! credential out of the authorization header and turning it into the
//! caller's identity when the token decodes and has not expired.

use vstd::prelude::*;

use crate::auth::{decoded_claims, token_of, UserAuth, UserAuthDetails};
use crate::text::{second_token, second_token_str};

verus! {

/// The transform that installs the middleware around a service.
pub struct Authenticate;

/// The installed middleware: the wrapped service plus the token logic.
pub struct AuthenticateMiddleware<S> {
    pub service: S,
}

impl Authenticate {
    /// Wraps a service with the authentication step.
    pub fn new_transform<S>(&self, service: S) -> (r: AuthenticateMiddleware<S>)
        ensures
            r.service == service,
    {
        AuthenticateMiddleware { service }
    }
}

impl<S> AuthenticateMiddleware<S> {
    /// Reads the authorization header's second token as the bearer
    /// credential and decodes it: a token that was signed with this
    /// secret and has not expired yields exactly its identity; an expired
    /// token, or one that does not decode under the secret, never yields
    /// one.
    pub fn authenticate(&self, header: Option<&str>, secret: &str, now: i64) -> (r: UserAuth)
        ensures
            r.details matches Some(u) ==> now < u.expires_at,
            r.details matches Some(u) ==> (header matches Some(h) && second_token(h@) matches Some(
                tok,
            ) && (decoded_claims(secret@, tok) matches Some(c) && u.id == c.0 && u.username@ == c.1
                && u.expires_at == c.2)),
            forall|id: i32, username: Seq<char>, expires_at: i64|
                #![trigger token_of(secret@, id as int, username, expires_at as int)]
                (header matches Some(h) && second_token(h@) matches Some(tok) && tok == token_of(
                    secret@,
                    id as int,
                    username,
                    expires_at as int,
                ) && now < expires_at) ==> (r.details matches Some(u) && u.id == id && u.username@
                    == username && u.expires_at == expires_at),
    {
        let h = match header {
            None => {
                return UserAuth { details: None };
            },
            Some(h) => h,
        };
        let token = match second_token_str(h) {
            None => {
                return UserAuth { details: None };
            },
            Some(t) => t,
        };
        match UserAuthDetails::from_jwt(token.as_str(), secret, now) {
            Ok(u) => UserAuth { details: Some(u) },
            Err(_) => UserAuth { details: None },
        }
    }
}

} // verus!
