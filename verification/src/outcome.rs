use vstd::prelude::*;

verus! {

/// HTTP status `400 Bad Request`.
pub const BAD_REQUEST: u16 = 400;

/// HTTP status `401 Unauthorized`.
pub const UNAUTHORIZED: u16 = 401;

/// HTTP status `404 Not Found`.
pub const NOT_FOUND: u16 = 404;

/// HTTP status `500 Internal Server Error`.
pub const INTERNAL_SERVER_ERROR: u16 = 500;

/// What a request guard concludes: the guarded value, a failure with an
/// HTTP status and an error value, or a hand-off to the next route.
pub enum Outcome<S, E, F> {
    Success(S),
    Failure(u16, E),
    Forward(F),
}

} // verus!
