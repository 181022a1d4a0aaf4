use reviews_api::catchers::{not_found, unauthorized};
use reviews_api::jwt::JwtGuardErr;

#[test]
fn not_found_answers_404() {
    let r = not_found();
    assert_eq!(r.code(), 404);
    assert_eq!(r.message(), "Bad request or not found");
}

#[test]
fn unauthorized_without_cached_reason() {
    let r = unauthorized(None);
    assert_eq!(r.code(), 401);
    assert_eq!(r.message(), "Unauthorized");
}

#[test]
fn unauthorized_with_cached_reason() {
    let e = JwtGuardErr { message: String::from("Token not found") };
    let r = unauthorized(Some(&e));
    assert_eq!(r.code(), 401);
    assert_eq!(r.message(), "Token not found");
}
