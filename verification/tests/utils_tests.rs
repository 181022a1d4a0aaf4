use reviews_api::hello;
use reviews_api::utils::{push_decimal, refresh_token_generate};

#[test]
fn hello_greets() {
    assert_eq!(hello(), "hello my friend");
}

#[test]
fn refresh_key_of_small_ids() {
    assert_eq!(refresh_token_generate(0), "refresh_token_0");
    assert_eq!(refresh_token_generate(7), "refresh_token_7");
    assert_eq!(refresh_token_generate(42), "refresh_token_42");
    assert_eq!(refresh_token_generate(1000), "refresh_token_1000");
}

#[test]
fn refresh_key_matches_format() {
    for id in [0usize, 9, 10, 99, 100, 12345, 4294967295, usize::MAX] {
        assert_eq!(refresh_token_generate(id), format!("refresh_token_{}", id));
    }
}

#[test]
fn refresh_keys_of_distinct_users_differ() {
    assert_ne!(refresh_token_generate(1), refresh_token_generate(10));
    assert_ne!(refresh_token_generate(12), refresh_token_generate(21));
}

#[test]
fn push_decimal_appends() {
    let mut s = String::from("n=");
    push_decimal(&mut s, 305);
    assert_eq!(s, "n=305");
}
