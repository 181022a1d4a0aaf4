use vstd::prelude::*;

use crate::outcome::{Outcome, UNAUTHORIZED};

verus! {

/// Claims carried by an access token.
#[derive(Debug)]
pub struct Claims {
    pub id: u32,
    pub wallet_address: String,
    pub exp: usize,
}

/// Claims carried by a refresh token.
#[derive(Debug)]
pub struct SubClaims {
    pub id: u32,
}

/// The pair of tokens handed out at login.
#[derive(Debug)]
pub struct Tokens {
    access_token: String,
    refresh_token: String,
}

impl Tokens {
    pub fn new(access_token: String, refresh_token: String) -> (r: Tokens)
        ensures
            r.access_token_view() == access_token@,
            r.refresh_token_view() == refresh_token@,
    {
        Tokens { access_token, refresh_token }
    }

    pub fn access_token(&self) -> (r: &str)
        ensures
            r@ == self.access_token_view(),
    {
        self.access_token.as_str()
    }

    pub fn refresh_token(&self) -> (r: &str)
        ensures
            r@ == self.refresh_token_view(),
    {
        self.refresh_token.as_str()
    }

    pub closed spec fn access_token_view(&self) -> Seq<char> {
        self.access_token@
    }

    pub closed spec fn refresh_token_view(&self) -> Seq<char> {
        self.refresh_token@
    }
}

/// The reason a guard rejected a request, kept for the `401` catcher.
#[derive(Debug)]
pub struct JwtGuardErr {
    pub message: String,
}

/// Claims that a route may do without: `None` when the request carries no
/// usable token.
#[derive(Debug)]
pub struct OptionalClaims(pub Option<Claims>);

// ---------------------------------------------------------------------
// Reading the bearer token out of the `authorization` header.

/// Whether `c` has the Unicode `White_Space` property, which is what
/// `char::is_whitespace` (and so `str::trim`) tests: U+0009 to U+000D,
/// U+0020, U+0085, U+00A0, U+1680, U+2000 to U+200A, U+2028, U+2029,
/// U+202F, U+205F and U+3000.
pub open spec fn is_whitespace(c: char) -> bool {
    let n = c as u32;
    ||| 0x9 <= n <= 0xD
    ||| n == 0x20
    ||| n == 0x85
    ||| n == 0xA0
    ||| n == 0x1680
    ||| 0x2000 <= n <= 0x200A
    ||| n == 0x2028
    ||| n == 0x2029
    ||| n == 0x202F
    ||| n == 0x205F
    ||| n == 0x3000
}

/// Whether `c` is whitespace.
pub fn char_is_whitespace(c: char) -> (r: bool)
    ensures
        r == is_whitespace(c),
{
    let n: u32 = c as u32;
    (0x9 <= n && n <= 0xD) || n == 0x20 || n == 0x85 || n == 0xA0 || n == 0x1680 || (0x2000 <= n
        && n <= 0x200A) || n == 0x2028 || n == 0x2029 || n == 0x202F || n == 0x205F || n == 0x3000
}

/// The scheme word that prefixes a bearer token.
pub open spec fn bearer_word() -> Seq<char> {
    seq!['B', 'e', 'a', 'r', 'e', 'r']
}

/// `s` with every leading repetition of `Bearer` removed
/// (as `str::trim_start_matches("Bearer")` does).
pub open spec fn strip_bearer(s: Seq<char>) -> Seq<char>
    decreases s.len(),
{
    if s.len() >= 6 && s.subrange(0, 6) == bearer_word() {
        strip_bearer(s.subrange(6, s.len() as int))
    } else {
        s
    }
}

/// `s` without its leading whitespace.
pub open spec fn trim_start(s: Seq<char>) -> Seq<char>
    decreases s.len(),
{
    if s.len() > 0 && is_whitespace(s[0]) {
        trim_start(s.drop_first())
    } else {
        s
    }
}

/// `s` without its trailing whitespace.
pub open spec fn trim_end(s: Seq<char>) -> Seq<char>
    decreases s.len(),
{
    if s.len() > 0 && is_whitespace(s.last()) {
        trim_end(s.drop_last())
    } else {
        s
    }
}

/// The token that an `authorization` header value carries.
pub open spec fn bearer_token_of(header: Seq<char>) -> Seq<char> {
    trim_end(trim_start(strip_bearer(header)))
}

proof fn lemma_trim_start_first(s: Seq<char>)
    ensures
        trim_start(s).len() > 0 ==> !is_whitespace(trim_start(s)[0]),
    decreases s.len(),
{
    if s.len() > 0 && is_whitespace(s[0]) {
        lemma_trim_start_first(s.drop_first());
    }
}

proof fn lemma_trim_end_keeps_first(s: Seq<char>)
    ensures
        trim_end(s).len() > 0 ==> !is_whitespace(trim_end(s).last()),
        trim_end(s).len() > 0 ==> trim_end(s)[0] == s[0],
        trim_end(s).len() <= s.len(),
    decreases s.len(),
{
    if s.len() > 0 && is_whitespace(s.last()) {
        lemma_trim_end_keeps_first(s.drop_last());
    }
}

/// A bearer token never starts or ends with whitespace.
pub proof fn lemma_bearer_token_trimmed(header: Seq<char>)
    ensures
        bearer_token_of(header).len() > 0 ==> {
            &&& !is_whitespace(bearer_token_of(header)[0])
            &&& !is_whitespace(bearer_token_of(header).last())
        },
{
    let started = trim_start(strip_bearer(header));
    lemma_trim_start_first(strip_bearer(header));
    lemma_trim_end_keeps_first(started);
}

proof fn lemma_strip_bearer_word(s: Seq<char>)
    ensures
        strip_bearer(bearer_word() + s) == strip_bearer(s),
{
    let t = bearer_word() + s;
    assert(t.subrange(0, 6) =~= bearer_word());
    assert(t.subrange(6, t.len() as int) =~= s);
}

proof fn lemma_trim_start_space(s: Seq<char>)
    ensures
        trim_start(seq![' '] + s) == trim_start(s),
{
    let t = seq![' '] + s;
    assert(is_whitespace(' '));
    assert(t[0] == ' ');
    assert(t.drop_first() =~= s);
}

/// A header that is the token itself, the token after `Bearer ` (the usual
/// form), or the token after a repeated `Bearer` and more spaces, all carry
/// the same token, for a token that neither starts with `Bearer` nor has
/// whitespace at either end.
pub proof fn lemma_bearer_forms_agree(tok: Seq<char>)
    requires
        tok.len() > 0 ==> !is_whitespace(tok[0]) && !is_whitespace(tok.last()),
        !(tok.len() >= 6 && tok.subrange(0, 6) == bearer_word()),
    ensures
        bearer_token_of(tok) == tok,
        bearer_token_of(bearer_word() + seq![' '] + tok) == tok,
        bearer_token_of(bearer_word() + bearer_word() + seq![' ', ' '] + tok) == tok,
{
    assert(strip_bearer(tok) == tok);
    assert(trim_start(tok) == tok);
    assert(trim_end(tok) == tok);
    let spaced = seq![' '] + tok;
    assert(strip_bearer(spaced) == spaced) by {
        assert(spaced.len() >= 6 ==> spaced.subrange(0, 6)[0] == ' ');
    }
    lemma_trim_start_space(tok);
    assert(bearer_word() + seq![' '] + tok =~= bearer_word() + spaced);
    lemma_strip_bearer_word(spaced);
    let spaced2 = seq![' '] + spaced;
    assert(strip_bearer(spaced2) == spaced2) by {
        assert(spaced2.len() >= 6 ==> spaced2.subrange(0, 6)[0] == ' ');
    }
    lemma_trim_start_space(spaced);
    assert(bearer_word() + bearer_word() + seq![' ', ' '] + tok =~= bearer_word() + (
    bearer_word() + spaced2));
    lemma_strip_bearer_word(bearer_word() + spaced2);
    lemma_strip_bearer_word(spaced2);
}

fn bearer_word_at(h: &str, i: usize, n: usize) -> (r: bool)
    requires
        n == h@.len(),
        i <= n,
    ensures
        r == (n - i >= 6 && h@.subrange(i as int, i + 6) == bearer_word()),
{
    if n - i < 6 {
        return false;
    }
    let ok = h.get_char(i) == 'B' && h.get_char(i + 1) == 'e' && h.get_char(i + 2) == 'a'
        && h.get_char(i + 3) == 'r' && h.get_char(i + 4) == 'e' && h.get_char(i + 5) == 'r';
    if ok {
        assert(h@.subrange(i as int, i + 6) =~= bearer_word());
    } else {
        assert(h@.subrange(i as int, i + 6) != bearer_word()) by {
            if h@.subrange(i as int, i + 6) == bearer_word() {
                assert(h@.subrange(i as int, i + 6)[0] == h@[i as int]);
                assert(h@.subrange(i as int, i + 6)[1] == h@[i + 1]);
                assert(h@.subrange(i as int, i + 6)[2] == h@[i + 2]);
                assert(h@.subrange(i as int, i + 6)[3] == h@[i + 3]);
                assert(h@.subrange(i as int, i + 6)[4] == h@[i + 4]);
                assert(h@.subrange(i as int, i + 6)[5] == h@[i + 5]);
            }
        }
    }
    ok
}

/// The token in an `authorization` header value: every leading `Bearer`
/// removed, then the surrounding whitespace.
pub fn bearer_token(header: &str) -> (r: String)
    ensures
        r@ == bearer_token_of(header@),
{
    let n: usize = header.unicode_len();
    let ghost s = header@;
    let mut i: usize = 0;
    assert(s.subrange(0, n as int) =~= s);
    while bearer_word_at(header, i, n)
        invariant
            n == s.len(),
            s == header@,
            i <= n,
            strip_bearer(s) == strip_bearer(s.subrange(i as int, n as int)),
        decreases n - i,
    {
        let ghost t = s.subrange(i as int, n as int);
        assert(t.subrange(0, 6) =~= s.subrange(i as int, i + 6));
        assert(t.subrange(6, t.len() as int) =~= s.subrange(i + 6, n as int));
        i = i + 6;
    }
    let ghost stripped = s.subrange(i as int, n as int);
    assert(strip_bearer(stripped) == stripped) by {
        assert(stripped.len() >= 6 ==> stripped.subrange(0, 6) =~= s.subrange(i as int, i + 6));
    }
    let mut j: usize = i;
    while j < n && char_is_whitespace(header.get_char(j))
        invariant
            n == s.len(),
            s == header@,
            i <= j <= n,
            trim_start(stripped) == trim_start(s.subrange(j as int, n as int)),
        decreases n - j,
    {
        let ghost t = s.subrange(j as int, n as int);
        assert(t.drop_first() =~= s.subrange(j + 1, n as int));
        j = j + 1;
    }
    let ghost started = s.subrange(j as int, n as int);
    assert(trim_start(started) == started);
    let mut k: usize = n;
    assert(s.subrange(j as int, k as int) =~= started);
    while k > j && char_is_whitespace(header.get_char(k - 1))
        invariant
            n == s.len(),
            s == header@,
            j <= k <= n,
            trim_end(started) == trim_end(s.subrange(j as int, k as int)),
        decreases k - j,
    {
        let ghost t = s.subrange(j as int, k as int);
        assert(t.drop_last() =~= s.subrange(j as int, k - 1));
        k = k - 1;
    }
    let ghost ended = s.subrange(j as int, k as int);
    assert(trim_end(ended) == ended);
    let token = header.substring_char(j, k);
    String::from_str(token)
}

// ---------------------------------------------------------------------
// Issuing claims.

/// Lifetime of an access token, in seconds.
pub const ACCESS_TOKEN_LIFETIME: i64 = 60;

/// The earliest UNIX time chrono represents: 1 January of year -262143,
/// 00:00:00 UTC (`NaiveDate::MIN`).
pub open spec fn chrono_min_timestamp() -> int {
    -8334601228800
}

/// The latest UNIX time chrono represents: 31 December of year 262142,
/// 23:59:59 UTC (`NaiveDate::MAX`).
pub open spec fn chrono_max_timestamp() -> int {
    8210266876799
}

/// Whether chrono can represent the instant at UNIX time `t`.
pub open spec fn chrono_represents(t: int) -> bool {
    chrono_min_timestamp() <= t <= chrono_max_timestamp()
}

/// Calls `chrono::DateTime::<Utc>::checked_add_signed` with a
/// `chrono::Duration` of `secs` seconds, on the instant that
/// `DateTime::from_timestamp(now, 0)` gives, and reads back its UNIX time
/// with `timestamp()`. chrono answers `Some(now + secs)` exactly when both
/// instants lie in its calendar range, `None` otherwise (its timestamps
/// count non-leap seconds and round-trip).
#[verifier::external_body]
fn shift_timestamp(now: i64, secs: i64) -> (r: Option<i64>)
    requires
        -9223372036854775 <= secs <= 9223372036854775,
    ensures
        r == (if chrono_represents(now as int) && chrono_represents(now + secs) {
            Some((now + secs) as i64)
        } else {
            None
        }),
{
    match chrono::DateTime::<chrono::Utc>::from_timestamp(now, 0) {
        Some(start) => match start.checked_add_signed(chrono::Duration::seconds(secs)) {
            Some(end) => Some(end.timestamp()),
            None => None,
        },
        None => None,
    }
}

/// The claims of the token pair issued to user `id` at UNIX time `now`:
/// the access claims expire `ACCESS_TOKEN_LIFETIME` seconds later, the
/// refresh claims name the same user. `None` where chrono cannot represent
/// `now` or the expiry instant.
pub fn claims_at(id: u32, wallet_address: String, now: i64) -> (r: Option<(Claims, SubClaims)>)
    ensures
        r is Some <==> chrono_represents(now as int) && chrono_represents(
            now + ACCESS_TOKEN_LIFETIME,
        ),
        r matches Some((c, sub)) ==> {
            &&& c.id == id
            &&& c.wallet_address@ == wallet_address@
            &&& c.exp == (now + ACCESS_TOKEN_LIFETIME) as usize
            &&& sub.id == id
        },
{
    match shift_timestamp(now, ACCESS_TOKEN_LIFETIME) {
        Some(expiration) => {
            let claims = Claims { id, wallet_address, exp: expiration as usize };
            Some((claims, SubClaims { id }))
        },
        None => None,
    }
}

// ---------------------------------------------------------------------
// The request guards.

/// Where a guard stands after reading the `authorization` header: a token
/// to decode, or a conclusion already reached.
pub enum GuardStep<T> {
    Decode(String),
    Done(T),
}

/// A guard's conclusion, with the error to keep for the `401` catcher.
pub struct GuardDecision<T> {
    pub outcome: Outcome<T, (), ()>,
    pub cache: Option<JwtGuardErr>,
}

/// The outcome of the claims guard once the token decoded to `decoded`.
pub open spec fn claims_outcome<T>(decoded: Result<T, String>) -> Outcome<T, (), ()> {
    match decoded {
        Ok(c) => Outcome::Success(c),
        Err(_) => Outcome::Failure(UNAUTHORIZED, ()),
    }
}

/// The claims the optional guard hands on once the token decoded to
/// `decoded`.
pub open spec fn optional_claims(decoded: Result<Claims, String>) -> Option<Claims> {
    match decoded {
        Ok(c) => Some(c),
        Err(_) => None,
    }
}

/// First step of the claims guard (for access or refresh claims `T`).
/// Without an `authorization` header the request fails with `401` and the
/// message `Token not found`; otherwise the bearer token is to be decoded.
pub fn claims_guard_start<T>(authorization: Option<&str>) -> (r: GuardStep<GuardDecision<T>>)
    ensures
        authorization is None <==> r is Done,
        authorization matches Some(h) ==> r matches GuardStep::Decode(t) && t@ == bearer_token_of(
            h@,
        ),
        r matches GuardStep::Done(d) ==> {
            &&& d.outcome == Outcome::<T, (), ()>::Failure(UNAUTHORIZED, ())
            &&& d.cache matches Some(e) && e.message@ == "Token not found"@
        },
{
    match authorization {
        None => GuardStep::Done(
            GuardDecision {
                outcome: Outcome::Failure(UNAUTHORIZED, ()),
                cache: Some(JwtGuardErr { message: String::from_str("Token not found") }),
            },
        ),
        Some(h) => GuardStep::Decode(bearer_token(h)),
    }
}

/// Last step of the claims guard: decoded claims succeed; a decoding error
/// fails with `401` and its message is kept for the catcher.
pub fn claims_guard_decoded<T>(decoded: Result<T, String>) -> (r: GuardDecision<T>)
    ensures
        r.outcome == claims_outcome(decoded),
        decoded is Ok ==> r.cache is None,
        decoded matches Err(m) ==> r.cache matches Some(e) && e.message@ == m@,
{
    match decoded {
        Ok(claims) => GuardDecision { outcome: Outcome::Success(claims), cache: None },
        Err(message) => GuardDecision {
            outcome: Outcome::Failure(UNAUTHORIZED, ()),
            cache: Some(JwtGuardErr { message }),
        },
    }
}

/// First step of the optional guard: without an `authorization` header it
/// succeeds with no claims; otherwise the bearer token is to be decoded.
pub fn optional_claims_start(authorization: Option<&str>) -> (r: GuardStep<OptionalClaims>)
    ensures
        authorization is None <==> r is Done,
        authorization matches Some(h) ==> r matches GuardStep::Decode(t) && t@ == bearer_token_of(
            h@,
        ),
        r matches GuardStep::Done(c) ==> c.0 is None,
{
    match authorization {
        None => GuardStep::Done(OptionalClaims(None)),
        Some(h) => GuardStep::Decode(bearer_token(h)),
    }
}

/// Last step of the optional guard: it never fails; a token that does not
/// decode counts as no token.
pub fn optional_claims_decoded(decoded: Result<Claims, String>) -> (r: OptionalClaims)
    ensures
        r.0 == optional_claims(decoded),
{
    match decoded {
        Ok(claims) => OptionalClaims(Some(claims)),
        Err(_) => OptionalClaims(None),
    }
}

/// The optional guard hands on claims exactly when the strict guard would
/// accept the request with them, and otherwise lets the request through
/// without claims where the strict guard answers `401`.
pub proof fn lemma_optional_guard_agrees(decoded: Result<Claims, String>)
    ensures
        forall|c: Claims|
            optional_claims(decoded) == Some(c) <==> claims_outcome(decoded) == Outcome::<
                Claims,
                (),
                (),
            >::Success(c),
        optional_claims(decoded) is None <==> claims_outcome(decoded) == Outcome::<
            Claims,
            (),
            (),
        >::Failure(UNAUTHORIZED, ()),
{
}

} // verus!
