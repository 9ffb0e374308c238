//! The claims of a session token.

use vstd::prelude::*;
use crate::text::random_id;

verus! {

/// How long a token stays valid, in seconds.
pub const TOKEN_LIFETIME: i64 = 3600;

/// The claims that a signed session token carries.
#[derive(Debug)]
pub struct Token {
    /// The user the token speaks for.
    pub sub: i32,
    /// When the token expires, in seconds since the Unix epoch.
    pub exp: i64,
    /// When the token was issued, in seconds since the Unix epoch.
    pub iat: i64,
    /// A unique id of the token.
    pub jti: String,
}

impl Token {
    /// Fresh claims for `user_id`, issued at `now`, with a random id.
    pub fn new(user_id: i32, now: i64) -> (r: Token)
        requires
            now <= i64::MAX - TOKEN_LIFETIME,
        ensures
            r.sub == user_id,
            r.iat == now,
            r.exp == now + TOKEN_LIFETIME,
            r.jti@.len() == 36,
    {
        Token { sub: user_id, exp: now + TOKEN_LIFETIME, iat: now, jti: random_id() }
    }
}

} // verus!
