use reviews_api::jwt::{
    bearer_token, char_is_whitespace, claims_at, claims_guard_decoded, claims_guard_start,
    optional_claims_decoded, optional_claims_start, Claims, GuardStep, Tokens,
    ACCESS_TOKEN_LIFETIME,
};
use reviews_api::outcome::Outcome;

fn claims(id: u32) -> Claims {
    Claims { id, wallet_address: String::from("0xabc"), exp: 100 }
}

#[test]
fn bearer_token_plain() {
    assert_eq!(bearer_token("Bearer abc.def.ghi"), "abc.def.ghi");
}

#[test]
fn bearer_token_edge_cases() {
    assert_eq!(bearer_token(""), "");
    assert_eq!(bearer_token("Bearer"), "");
    assert_eq!(bearer_token("BearerBearer  tok  "), "tok");
    assert_eq!(bearer_token("  Bearer tok"), "Bearer tok");
    assert_eq!(bearer_token("bearer tok"), "bearer tok");
    assert_eq!(bearer_token("Bearer \u{3000}tök\u{a0}\n"), "tök");
    assert_eq!(bearer_token("tok"), "tok");
}

#[test]
fn bearer_token_agrees_with_std() {
    for h in [
        "Bearer x", "Bearerx", "BearerBearerBearer", " \t", "Bear", "Bearer  a b  ", "x Bearer",
        "Bearer\u{2028}y\u{85}",
    ] {
        assert_eq!(bearer_token(h), h.trim_start_matches("Bearer").trim());
    }
}

#[test]
fn claims_expire_a_minute_later() {
    let (c, sub) = claims_at(7, String::from("0xabc"), 1_700_000_000).unwrap();
    assert_eq!(ACCESS_TOKEN_LIFETIME, 60);
    assert_eq!(c.id, 7);
    assert_eq!(c.wallet_address, "0xabc");
    assert_eq!(c.exp, 1_700_000_060);
    assert_eq!(sub.id, 7);
}

#[test]
fn claims_outside_the_calendar_are_refused() {
    assert!(claims_at(1, String::from("w"), i64::MAX).is_none());
    assert!(claims_at(1, String::from("w"), i64::MIN).is_none());
}

#[test]
fn claims_at_the_edges_of_chrono_calendar() {
    let min: i64 = -8_334_601_228_800;
    let max: i64 = 8_210_266_876_799;
    assert!(claims_at(1, String::from("w"), min).is_some());
    assert!(claims_at(1, String::from("w"), min - 1).is_none());
    assert_eq!(claims_at(1, String::from("w"), max - 60).unwrap().0.exp, max as usize);
    assert!(claims_at(1, String::from("w"), max - 59).is_none());
    assert!(chrono::DateTime::<chrono::Utc>::from_timestamp(min, 0).is_some());
    assert!(chrono::DateTime::<chrono::Utc>::from_timestamp(min - 1, 0).is_none());
    assert!(chrono::DateTime::<chrono::Utc>::from_timestamp(max, 0).is_some());
    assert!(chrono::DateTime::<chrono::Utc>::from_timestamp(max + 1, 0).is_none());
}

#[test]
fn whitespace_agrees_with_std_on_every_char() {
    for n in 0u32..=0x10FFFF {
        if let Some(c) = char::from_u32(n) {
            assert_eq!(char_is_whitespace(c), c.is_whitespace(), "U+{:04X}", n);
        }
    }
}

#[test]
fn bearer_forms_carry_the_same_token() {
    for tok in ["", "abc", "a b", "x.y.z"] {
        assert_eq!(bearer_token(tok), tok);
        assert_eq!(bearer_token(&format!("Bearer {}", tok)), tok);
        assert_eq!(bearer_token(&format!("BearerBearer  {}", tok)), tok);
    }
}

#[test]
fn tokens_keep_both_strings() {
    let t = Tokens::new(String::from("a"), String::from("r"));
    assert_eq!(t.access_token(), "a");
    assert_eq!(t.refresh_token(), "r");
}

#[test]
fn claims_guard_without_header() {
    match claims_guard_start::<Claims>(None) {
        GuardStep::Done(d) => {
            assert!(matches!(d.outcome, Outcome::Failure(401, ())));
            assert_eq!(d.cache.unwrap().message, "Token not found");
        }
        GuardStep::Decode(_) => panic!("expected a refusal"),
    }
}

#[test]
fn claims_guard_with_header() {
    match claims_guard_start::<Claims>(Some("Bearer t0k")) {
        GuardStep::Decode(t) => assert_eq!(t, "t0k"),
        GuardStep::Done(_) => panic!("expected a token"),
    }
}

#[test]
fn claims_guard_decoded_success_and_failure() {
    let ok = claims_guard_decoded(Ok(claims(5)));
    assert!(matches!(ok.outcome, Outcome::Success(ref c) if c.id == 5));
    assert!(ok.cache.is_none());
    let bad = claims_guard_decoded::<Claims>(Err(String::from("InvalidSignature")));
    assert!(matches!(bad.outcome, Outcome::Failure(401, ())));
    assert_eq!(bad.cache.unwrap().message, "InvalidSignature");
}

#[test]
fn optional_guard_never_fails() {
    assert!(matches!(optional_claims_start(None), GuardStep::Done(ref c) if c.0.is_none()));
    assert!(matches!(optional_claims_start(Some("Bearer z")), GuardStep::Decode(ref t) if t == "z"));
    assert_eq!(optional_claims_decoded(Ok(claims(9))).0.unwrap().id, 9);
    assert!(optional_claims_decoded(Err(String::from("ExpiredSignature"))).0.is_none());
}
