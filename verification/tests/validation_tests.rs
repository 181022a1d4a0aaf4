use reviews_api::outcome::Outcome;
use reviews_api::routes::auth::LoginRequest;
use reviews_api::routes::body::{validated_body, HelloData as BodyHello};
use reviews_api::routes::query::{query, validated_query, Color, HelloData as QueryHello};
use reviews_api::routes::review::SignupData;
use reviews_api::validation::{
    in_range, validated_form, validated_guard, validation_catcher, violated_fields,
    CachedValidationErrors, FormFailure, Json, ParamValue, Rule, Validate, ValidationErrors,
    Validated, Violation,
};

fn fields(e: &ValidationErrors) -> Vec<String> {
    e.0.iter().map(|v| v.field.clone()).collect()
}

#[test]
fn body_hello_accepts_good_data() {
    let d = BodyHello { name: String::from("a"), age: 100 };
    assert!(d.validate().is_ok());
}

#[test]
fn body_hello_rejects_empty_name_and_old_age() {
    let d = BodyHello { name: String::new(), age: 101 };
    let e = d.validate().unwrap_err();
    assert_eq!(fields(&e), vec!["name", "age"]);
    assert!(matches!(e.0[0].rule, Rule::Length { min: 1 }));
    assert_eq!(e.0[0].rule.code(), "length");
    assert!(matches!(e.0[1].rule, Rule::Range { min: 0, max: 100 }));
    assert!(matches!(e.0[1].value, ParamValue::Number(101)));
}

#[test]
fn query_hello_counts_characters() {
    let short = QueryHello { name: String::from("ab"), age: None, color: Color::Red };
    assert_eq!(fields(&short.validate().unwrap_err()), vec!["name"]);
    let unicode = QueryHello { name: String::from("äöü"), age: Some(0), color: Color::Blue };
    assert!(unicode.validate().is_ok());
    let old = QueryHello { name: String::from("abc"), age: Some(200), color: Color::Green };
    assert_eq!(fields(&old.validate().unwrap_err()), vec!["age"]);
}

#[test]
fn signup_checks_mail_site_and_age() {
    let good = SignupData {
        mail: String::from("someone@example.com"),
        site: String::from("https://example.com"),
        age: 18,
    };
    assert!(good.validate().is_ok());
    let bad = SignupData { mail: String::from("nobody"), site: String::from("not a url"), age: 21 };
    let e = bad.validate().unwrap_err();
    assert_eq!(fields(&e), vec!["mail", "site", "age"]);
    assert_eq!(e.0[0].rule.code(), "email");
    assert_eq!(e.0[1].rule.code(), "url");
    assert_eq!(e.0[2].rule.code(), "range");
}

#[test]
fn login_request_has_no_rules() {
    assert!(LoginRequest { wallet_address: String::new() }.validate().is_ok());
}

#[test]
fn range_is_inclusive() {
    assert!(in_range(18, 18, 20));
    assert!(in_range(20, 18, 20));
    assert!(!in_range(17, 18, 20));
    assert!(!in_range(21, 18, 20));
}

#[test]
fn guard_passes_valid_data() {
    let inner: Outcome<BodyHello, (), ()> =
        Outcome::Success(BodyHello { name: String::from("x"), age: 3 });
    let (out, cache) = validated_guard(inner);
    assert!(matches!(out, Outcome::Success(Validated(ref d)) if d.name == "x"));
    assert!(cache.is_none());
}

#[test]
fn guard_refuses_invalid_data_with_400() {
    let inner: Outcome<BodyHello, (), ()> =
        Outcome::Success(BodyHello { name: String::new(), age: 3 });
    let (out, cache) = validated_guard(inner);
    match out {
        Outcome::Failure(400, Ok(e)) => assert_eq!(fields(&e), vec!["name"]),
        _ => panic!("expected a 400"),
    }
    let kept = cache.unwrap();
    let answer = validation_catcher(Some(&kept));
    assert_eq!(answer.code(), 400);
    assert_eq!(fields(answer.errors().unwrap()), vec!["name"]);
}

#[test]
fn guard_passes_inner_failure_and_forward() {
    let failed: Outcome<BodyHello, &str, u8> = Outcome::Failure(422, "bad json");
    let (out, cache) = validated_guard(failed);
    assert!(matches!(out, Outcome::Failure(422, Err("bad json"))));
    assert!(cache.is_none());
    let forwarded: Outcome<BodyHello, &str, u8> = Outcome::Forward(7);
    let (out, cache) = validated_guard(forwarded);
    assert!(matches!(out, Outcome::Forward(7)));
    assert!(cache.is_none());
}

#[test]
fn catcher_without_cache() {
    let answer = validation_catcher(None);
    assert_eq!(answer.code(), 400);
    assert_eq!(
        answer.message(),
        "Bad Request. The request could not be understood by the server due to malformed syntax."
    );
    assert!(answer.errors().is_none());
    assert!(validation_catcher(Some(&CachedValidationErrors(None))).errors().is_none());
}

#[test]
fn form_reports_each_field_once() {
    let v = |f: &str| Violation {
        field: String::from(f),
        rule: Rule::Email,
        value: ParamValue::Text(String::new()),
    };
    let e = ValidationErrors(vec![v("a"), v("b"), v("a"), v("c"), v("b")]);
    assert_eq!(violated_fields(&e), vec!["a", "b", "c"]);
}

#[test]
fn form_guard_outcomes() {
    let bad: Result<QueryHello, u8> =
        Ok(QueryHello { name: String::from("x"), age: Some(101), color: Color::Red });
    match validated_form(bad) {
        Err(FormFailure::Fields(names)) => assert_eq!(names, vec!["name", "age"]),
        _ => panic!("expected field errors"),
    }
    let inner_err: Result<QueryHello, u8> = Err(3);
    assert!(matches!(validated_form(inner_err), Err(FormFailure::Inner(3))));
    let good: Result<QueryHello, u8> =
        Ok(QueryHello { name: String::from("xyz"), age: None, color: Color::Red });
    assert!(matches!(validated_form(good), Ok(Validated(ref d)) if d.name == "xyz"));
}

#[test]
fn routes_echo_their_input() {
    let j = query(String::from("n"), Some(5), Color::Blue);
    assert_eq!(j.0.name, "n");
    assert_eq!(j.0.age, Some(5));
    assert_eq!(j.0.color, Color::Blue);
    let v = validated_query(Validated(j.0));
    assert_eq!(v.0.name, "n");
    let b = validated_body(Validated(Json(BodyHello { name: String::from("q"), age: 1 })));
    assert_eq!(b.0.name, "q");
    assert_eq!(b.0.age, 1);
    assert_eq!(Validated(4).into_inner(), 4);
    assert_eq!(Validated(Json(5)).into_deep_inner(), 5);
}
