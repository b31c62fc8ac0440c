//! The authorization check: a single shared secret, compared against the
//! `Authorization` header of a request.  Missing and wrong keys are told
//! apart internally though both surface as the same status code.

use vstd::prelude::*;
use crate::strutil::str_eq_whole;

verus! {

/// A proof that a request carried the correct key; holds the key itself.
pub struct Authorization(pub String);

impl View for Authorization {
    type V = Seq<char>;

    open spec fn view(&self) -> Seq<char> {
        self.0@
    }
}

/// Why an authorization check failed.
#[derive(Debug, Clone, Copy, PartialEq, Eq, Structural)]
pub enum AuthorizationError {
    /// No `Authorization` header was present.
    Missing,
    /// The header was present but did not equal the shared key.
    Invalid,
}

impl Authorization {
    /// Check a request's `Authorization` header value against the shared
    /// key: absent is `Missing`, unequal is `Invalid`, equal passes.  The
    /// comparison scans the whole header value rather than stopping at
    /// the first differing character.
    pub fn from_header(header: Option<&str>, auth_key: &str) -> (r: Result<
        Authorization,
        AuthorizationError,
    >)
        ensures
            match header {
                None => r == Err::<Authorization, AuthorizationError>(AuthorizationError::Missing),
                Some(k) => if k@ == auth_key@ {
                    r matches Ok(a) && a@ == k@
                } else {
                    r == Err::<Authorization, AuthorizationError>(AuthorizationError::Invalid)
                },
            },
    {
        match header {
            None => Err(AuthorizationError::Missing),
            Some(k) => {
                if str_eq_whole(k, auth_key) {
                    Ok(Authorization(k.to_owned()))
                } else {
                    Err(AuthorizationError::Invalid)
                }
            }
        }
    }
}

} // verus!
