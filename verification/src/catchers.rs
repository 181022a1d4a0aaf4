use vstd::prelude::*;

use crate::jwt::JwtGuardErr;
use crate::outcome::{NOT_FOUND, UNAUTHORIZED};

verus! {

/// The body that the error catchers answer with.
pub struct ExceptionResponse {
    code: u16,
    message: String,
}

impl ExceptionResponse {
    pub closed spec fn code_view(&self) -> u16 {
        self.code
    }

    pub closed spec fn message_view(&self) -> Seq<char> {
        self.message@
    }

    pub fn code(&self) -> (r: u16)
        ensures
            r == self.code_view(),
    {
        self.code
    }

    pub fn message(&self) -> (r: &str)
        ensures
            r@ == self.message_view(),
    {
        self.message.as_str()
    }
}

/// Answer to a request that no route serves.
pub fn not_found() -> (r: ExceptionResponse)
    ensures
        r.code_view() == NOT_FOUND,
        r.message_view() == "Bad request or not found"@,
{
    ExceptionResponse { code: NOT_FOUND, message: String::from_str("Bad request or not found") }
}

/// Answer to a request that a guard refused with `401`: the reason the
/// guard kept (`cached`), or `Unauthorized` where it kept none.
pub fn unauthorized(cached: Option<&JwtGuardErr>) -> (r: ExceptionResponse)
    ensures
        r.code_view() == UNAUTHORIZED,
        cached matches Some(e) ==> r.message_view() == e.message@,
        cached is None ==> r.message_view() == "Unauthorized"@,
{
    let message = match cached {
        Some(e) => e.message.clone(),
        None => String::from_str("Unauthorized"),
    };
    ExceptionResponse { code: UNAUTHORIZED, message }
}

} // verus!
