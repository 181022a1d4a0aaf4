//! A verified core for a small review service: request guards for bearer
//! tokens, request validation, error catchers and the decisions of the
//! login flow. The HTTP server, the database, the key/value store and the
//! token codec live in `app/`.
use vstd::prelude::*;

pub mod catchers;
pub mod jwt;
pub mod outcome;
pub mod routes;
pub mod utils;
pub mod validation;

verus! {

/// Body of the index route.
pub fn hello() -> (r: &'static str)
    ensures
        r@ == "hello my friend"@,
{
    "hello my friend"
}

} // verus!
