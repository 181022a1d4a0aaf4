use reviews_api::jwt::SubClaims;
use reviews_api::routes::auth::{
    login_start, login_step, renew_key, LoginAction, LoginEvent, LoginRequest, UserRecord,
};

fn request() -> LoginRequest {
    LoginRequest { wallet_address: String::from("0xwallet") }
}

#[test]
fn login_looks_up_the_wallet() {
    assert!(matches!(login_start(&request()), LoginAction::FindUser(ref w) if w == "0xwallet"));
}

#[test]
fn unknown_wallet_gets_a_new_user() {
    let a = login_step(&request(), LoginEvent::Found(None));
    assert!(matches!(a, LoginAction::CreateUser(ref w) if w == "0xwallet"));
}

#[test]
fn known_user_gets_tokens() {
    let u = UserRecord { id: 12, wallet_address: String::from("0xwallet") };
    match login_step(&request(), LoginEvent::Found(Some(u))) {
        LoginAction::IssueTokens(g) => {
            assert_eq!(g.id, 12);
            assert_eq!(g.wallet_address, "0xwallet");
            assert_eq!(g.refresh_key, "refresh_token_12");
        }
        _ => panic!("expected tokens"),
    }
}

#[test]
fn created_user_gets_tokens() {
    let u = UserRecord { id: 3, wallet_address: String::from("0xnew") };
    match login_step(&request(), LoginEvent::Created(Ok(u))) {
        LoginAction::IssueTokens(g) => {
            assert_eq!(g.id, 3);
            assert_eq!(g.refresh_key, "refresh_token_3");
        }
        _ => panic!("expected tokens"),
    }
}

#[test]
fn failed_creation_answers_500() {
    match login_step(&request(), LoginEvent::Created(Err(String::from("unique constraint")))) {
        LoginAction::Fail(status, e) => {
            assert_eq!(status, 500);
            assert_eq!(e.status, 500);
            assert_eq!(e.message, "unique constraint");
        }
        _ => panic!("expected a failure"),
    }
}

#[test]
fn renewal_reads_the_key_login_wrote() {
    let u = UserRecord { id: 77, wallet_address: String::from("w") };
    let written = match login_step(&request(), LoginEvent::Found(Some(u))) {
        LoginAction::IssueTokens(g) => g.refresh_key,
        _ => panic!("expected tokens"),
    };
    assert_eq!(renew_key(&SubClaims { id: 77 }), written);
}

#[test]
fn login_run_for_a_new_wallet_then_again() {
    let req = request();
    let wallet = match login_start(&req) {
        LoginAction::FindUser(w) => w,
        _ => panic!("expected a lookup"),
    };
    let create_for = match login_step(&req, LoginEvent::Found(None)) {
        LoginAction::CreateUser(w) => w,
        _ => panic!("expected a creation"),
    };
    assert_eq!(create_for, wallet);
    let created = UserRecord { id: 5, wallet_address: create_for.clone() };
    let first = match login_step(&req, LoginEvent::Created(Ok(created))) {
        LoginAction::IssueTokens(g) => g,
        _ => panic!("expected tokens"),
    };
    assert_eq!(first.wallet_address, "0xwallet");
    let again = UserRecord { id: 5, wallet_address: wallet };
    let second = match login_step(&req, LoginEvent::Found(Some(again))) {
        LoginAction::IssueTokens(g) => g,
        _ => panic!("expected tokens"),
    };
    assert_eq!(first.id, second.id);
    assert_eq!(first.refresh_key, second.refresh_key);
    assert_eq!(second.refresh_key, "refresh_token_5");
}
