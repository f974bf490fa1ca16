//! What the bot sends to its GraphQL backend and what it reads from the answers.

pub mod models;
pub mod mutations;
pub mod queries;

use vstd::prelude::*;

verus! {

/// Whether an HTTP status code is a success (`2xx`), as `StatusCode::is_success` tells.
pub fn is_success_status(code: u16) -> (ok: bool)
    ensures
        ok == (200 <= code <= 299),
{
    200 <= code && code <= 299
}

} // verus!
