use vstd::prelude::*;

use crate::jwt::SubClaims;
use crate::outcome::INTERNAL_SERVER_ERROR;
use crate::utils::{refresh_key, refresh_token_generate};
use crate::validation::{finish_validation, Validate, ValidationErrors, Violation, ViolationView};

verus! {

/// The body of a login: the wallet that logs in.
pub struct LoginRequest {
    pub wallet_address: String,
}

impl Validate for LoginRequest {
    open spec fn violations(&self) -> Seq<ViolationView> {
        Seq::empty()
    }

    fn validate(&self) -> (r: Result<(), ValidationErrors>) {
        let found: Vec<Violation> = Vec::new();
        assert(found@.map_values(|v: Violation| v@) =~= self.violations());
        finish_validation(found)
    }
}

/// The body of a failed login.
pub struct LoginError {
    pub message: String,
    pub status: u32,
}

/// The body of a token renewal.
pub struct RenewRequest {
    pub refresh_token: String,
}

/// A user as the user store returns it.
pub struct UserRecord {
    pub id: i32,
    pub wallet_address: String,
}

/// What the user store answered.
pub enum LoginEvent {
    /// The lookup by wallet address (a failed lookup counts as no user).
    Found(Option<UserRecord>),
    /// The creation of a new user, or the store's error message.
    Created(Result<UserRecord, String>),
}

/// Tokens to issue to a user, and the key under which the refresh token is
/// to be stored.
pub struct TokenGrant {
    pub id: u32,
    pub wallet_address: String,
    pub refresh_key: String,
}

/// What the login flow does next.
pub enum LoginAction {
    /// Look the wallet up in the user store.
    FindUser(String),
    /// Create a user for the wallet.
    CreateUser(String),
    /// Issue tokens, store the refresh token, answer with the tokens.
    IssueTokens(TokenGrant),
    /// Answer with this status and body.
    Fail(u16, LoginError),
}

/// The grant for user `u`: the user's id as a token id, and the key that
/// `refresh_token_generate` gives for it.
pub open spec fn grant_for(g: TokenGrant, u: UserRecord) -> bool {
    &&& g.id == u.id as u32
    &&& g.wallet_address@ == u.wallet_address@
    &&& g.refresh_key@ == refresh_key((u.id as usize) as nat)
}

fn grant(user: UserRecord) -> (r: TokenGrant)
    ensures
        grant_for(r, user),
{
    let refresh_key = refresh_token_generate(user.id as usize);
    TokenGrant { id: user.id as u32, wallet_address: user.wallet_address, refresh_key }
}

/// The first action of a login for a request with wallet `wallet`: look
/// that wallet up.
pub open spec fn login_start_ok(wallet: Seq<char>, r: LoginAction) -> bool {
    r matches LoginAction::FindUser(w) && w@ == wallet
}

/// The action a login for wallet `wallet` takes after the store answered
/// `event`.
pub open spec fn login_step_ok(wallet: Seq<char>, event: LoginEvent, r: LoginAction) -> bool {
    match event {
        LoginEvent::Found(None) => r matches LoginAction::CreateUser(w) && w@ == wallet,
        LoginEvent::Found(Some(u)) => r matches LoginAction::IssueTokens(g) && grant_for(g, u),
        LoginEvent::Created(Ok(u)) => r matches LoginAction::IssueTokens(g) && grant_for(g, u),
        LoginEvent::Created(Err(m)) => r matches LoginAction::Fail(status, e) && status
            == INTERNAL_SERVER_ERROR && e.status == 500 && e.message@ == m@,
    }
}

/// A login starts by looking up the wallet of the request.
pub fn login_start(request: &LoginRequest) -> (r: LoginAction)
    ensures
        login_start_ok(request.wallet_address@, r),
{
    LoginAction::FindUser(request.wallet_address.clone())
}

/// The next step of a login after the user store answered: an unknown
/// wallet gets a new user; a known or new user gets tokens; a failed
/// creation answers `500` with the store's message.
pub fn login_step(request: &LoginRequest, event: LoginEvent) -> (r: LoginAction)
    ensures
        login_step_ok(request.wallet_address@, event, r),
{
    match event {
        LoginEvent::Found(None) => LoginAction::CreateUser(request.wallet_address.clone()),
        LoginEvent::Found(Some(user)) => LoginAction::IssueTokens(grant(user)),
        LoginEvent::Created(Ok(user)) => LoginAction::IssueTokens(grant(user)),
        LoginEvent::Created(Err(message)) => LoginAction::Fail(
            INTERNAL_SERVER_ERROR,
            LoginError { message, status: 500 },
        ),
    }
}

/// The key that a renewal reads the stored refresh token from.
pub fn renew_key(sub_claims: &SubClaims) -> (r: String)
    ensures
        r@ == refresh_key(sub_claims.id as nat),
{
    refresh_token_generate(sub_claims.id as usize)
}

/// A renewal for the refresh claims issued at login reads the key that the
/// login wrote, for every user id the store hands out that is not negative.
pub proof fn lemma_renew_reads_login_key(id: i32)
    requires
        id >= 0,
    ensures
        refresh_key((id as usize) as nat) == refresh_key((id as u32) as nat),
{
}

/// The action that ends a login run: the step after the lookup, or, where
/// that step created a user, the step after the creation.
pub open spec fn login_run_end(after_lookup: LoginAction, after_creation: LoginAction) -> LoginAction {
    if after_lookup is CreateUser {
        after_creation
    } else {
        after_lookup
    }
}

/// A whole login run, for a store whose lookup by wallet returns a user
/// with that wallet and whose creation makes a user with the wallet it was
/// given: the run looks up the request's wallet and ends either by issuing
/// tokens to a user with the request's wallet, under the key that
/// `refresh_token_generate` gives for that user's id (the found user, else
/// the created one), or, only where the creation failed, with `500`.
pub proof fn lemma_login_run_grants_request_wallet(
    wallet: Seq<char>,
    found: Option<UserRecord>,
    created: Result<UserRecord, String>,
    start: LoginAction,
    after_lookup: LoginAction,
    after_creation: LoginAction,
)
    requires
        login_start_ok(wallet, start),
        login_step_ok(wallet, LoginEvent::Found(found), after_lookup),
        after_lookup is CreateUser ==> login_step_ok(
            wallet,
            LoginEvent::Created(created),
            after_creation,
        ),
        found matches Some(u) ==> u.wallet_address@ == wallet,
        after_lookup matches LoginAction::CreateUser(w) ==> (created matches Ok(u)
            ==> u.wallet_address@ == w@),
    ensures
        start matches LoginAction::FindUser(w) && w@ == wallet,
        (match found {
            Some(u) => login_run_end(after_lookup, after_creation) matches LoginAction::IssueTokens(
                g,
            ) && grant_for(g, u) && g.wallet_address@ == wallet,
            None => match created {
                Ok(u) => login_run_end(after_lookup, after_creation) matches LoginAction::IssueTokens(
                    g,
                ) && grant_for(g, u) && g.wallet_address@ == wallet,
                Err(m) => login_run_end(after_lookup, after_creation) matches LoginAction::Fail(
                    status,
                    e,
                ) && status == INTERNAL_SERVER_ERROR && e.message@ == m@,
            },
        }),
{
}

/// Two logins with the same wallet, where the second finds the user that
/// the first was granted tokens for, grant the same id and store the
/// refresh token under the same key.
pub proof fn lemma_second_login_same_grant(
    wallet: Seq<char>,
    user: UserRecord,
    first: LoginAction,
    found_again: UserRecord,
    second: LoginAction,
)
    requires
        first matches LoginAction::IssueTokens(g) && grant_for(g, user),
        found_again.id == user.id,
        login_step_ok(wallet, LoginEvent::Found(Some(found_again)), second),
    ensures
        first matches LoginAction::IssueTokens(g1) && second matches LoginAction::IssueTokens(g2)
            && g1.id == g2.id && g1.refresh_key@ == g2.refresh_key@,
{
}

} // verus!
