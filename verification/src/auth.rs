//! The request shapes of the authentication collaborator. Token
//! issuing and checking live with that collaborator; the engine only
//! ever reads the validity flag.

use vstd::prelude::*;

verus! {

/// A session's claims, as the authentication collaborator decodes them.
#[derive(Debug, Clone)]
pub struct Claims {
    pub valid: bool,
    pub sub: String,
    pub exp: usize,
}

impl Claims {
    /// Whether the session was decoded as valid.
    pub fn is_valid(&self) -> (r: bool)
        ensures
            r == self.valid,
    {
        self.valid
    }
}

impl Default for Claims {
    /// The claims of an absent or rejected session: not valid, with an
    /// empty subject and no expiry.
    fn default() -> (r: Claims)
        ensures
            !r.valid,
            r.sub@ == Seq::<char>::empty(),
            r.exp == 0,
    {
        Claims { valid: false, sub: String::new(), exp: 0 }
    }
}

/// A login request.
#[derive(Debug, Clone, PartialEq, Eq)]
pub struct LoginForm {
    pub email: String,
    pub password: String,
}

/// A request to create a user.
#[derive(Debug, Clone, PartialEq, Eq)]
pub struct PostUser {
    pub email: String,
    pub password: String,
}

} // verus!
