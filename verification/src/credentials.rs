//! Client credentials and the access token of the current run.

use vstd::prelude::*;

verus! {

/// An access token as returned by the control API's login endpoint.
///
/// Both fields are empty before authentication; a successful authentication
/// fills both.
#[derive(Clone, Debug)]
pub struct Token {
    pub access_token: String,
    pub token_type: String,
}

impl Token {
    /// The state before authentication: no token material at all.
    pub open spec fn is_unset(self) -> bool {
        self.access_token@.len() == 0 && self.token_type@.len() == 0
    }

    /// The state after a successful authentication: both fields non-empty.
    pub open spec fn is_set(self) -> bool {
        self.access_token@.len() > 0 && self.token_type@.len() > 0
    }

    /// The empty token a fresh orchestrator starts with.
    pub fn unset() -> (t: Token)
        ensures
            t.is_unset(),
    {
        Token { access_token: String::new(), token_type: String::new() }
    }
}

/// Client credentials together with the token of the current run.
///
/// The token is mutated only during the serial authentication phase of a run,
/// never while provider pipelines are in flight.
pub struct Credentials {
    pub client_id: String,
    pub client_secret: String,
    pub token: Token,
}

impl Credentials {
    /// Fresh credentials: the token starts empty.
    pub fn new(client_id: String, client_secret: String) -> (c: Credentials)
        ensures
            c.client_id@ == client_id@,
            c.client_secret@ == client_secret@,
            c.token.is_unset(),
    {
        Credentials { client_id, client_secret, token: Token::unset() }
    }
}

/// The exact value of the `Authorization` header: the token type and the
/// access token joined by a single space, with no further transformation.
pub fn auth_header_value(token: &Token) -> (r: String)
    ensures
        r@ == token.token_type@ + " "@ + token.access_token@,
{
    let mut r = token.token_type.clone();
    r.append(" ");
    r.append(token.access_token.as_str());
    r
}

} // verus!
