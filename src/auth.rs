//! Credentials, the scoped token cache, and the per-request authentication
//! state machine. The caller performs each action the machine returns and
//! hands back what came of it.

use vstd::prelude::*;

use crate::challenge::{opt_view, parse_challenge, challenge_spec};
use crate::error::ErrorKind;

verus! {

/// What the caller authenticates with.
#[derive(Debug, Clone)]
pub enum Credentials {
    Anonymous,
    /// A user name and a password.
    UserPass(String, String),
}

impl Credentials {
    /// The account named in token requests.
    pub open spec fn account(&self) -> Option<Seq<char>> {
        match self {
            Credentials::Anonymous => None,
            Credentials::UserPass(u, _) => Some(u@),
        }
    }
}

/// One scope's place in the cache.
#[derive(Debug, Clone)]
struct CacheEntry {
    scope: String,
    /// A token request for this scope is in flight.
    pending: bool,
    token: Option<String>,
    /// The time, in the caller's clock, from which the token is stale.
    expires_at: Option<u64>,
}

/// The first entry, at or after `from`, for `scope`; `e.len()` when none.
spec fn index_from(e: Seq<CacheEntry>, scope: Seq<char>, from: int) -> int
    decreases e.len() - from,
{
    if from < 0 || from >= e.len() {
        e.len() as int
    } else if e[from].scope@ == scope {
        from
    } else {
        index_from(e, scope, from + 1)
    }
}

/// Tokens by scope, and the scopes whose token request is in flight. One
/// cache serves every request of a client, so that concurrent requests for a
/// scope share one token request.
#[derive(Debug, Clone)]
pub struct TokenCache {
    entries: Vec<CacheEntry>,
}

impl TokenCache {
    pub closed spec fn idx(&self, scope: Seq<char>) -> int {
        index_from(self.entries@, scope, 0)
    }

    /// Whether a token request for `scope` is in flight.
    pub closed spec fn is_pending(&self, scope: Seq<char>) -> bool {
        let i = self.idx(scope);
        0 <= i < self.entries@.len() && self.entries@[i].pending
    }

    /// The token held for `scope` and when it goes stale.
    pub closed spec fn token_of(&self, scope: Seq<char>) -> Option<(Seq<char>, Option<u64>)> {
        let i = self.idx(scope);
        if 0 <= i < self.entries@.len() {
            match self.entries@[i].token {
                Some(t) => Some((t@, self.entries@[i].expires_at)),
                None => None,
            }
        } else {
            None
        }
    }

    /// The token for `scope` that is still fresh at time `now`.
    pub open spec fn valid_token(&self, scope: Seq<char>, now: u64) -> Option<Seq<char>> {
        match self.token_of(scope) {
            Some((t, exp)) => match exp {
                Some(e) => if now < e {
                    Some(t)
                } else {
                    None
                },
                None => Some(t),
            },
            None => None,
        }
    }

    /// An empty cache.
    pub fn new() -> (r: TokenCache)
        ensures
            forall|s: Seq<char>| !r.is_pending(s) && r.token_of(s) is None,
    {
        TokenCache { entries: Vec::new() }
    }

    fn find(&self, scope: &String) -> (r: usize)
        ensures
            r == self.idx(scope@),
            r <= self.entries@.len(),
    {
        let mut i: usize = 0;
        while i < self.entries.len()
            invariant
                i <= self.entries@.len(),
                index_from(self.entries@, scope@, i as int) == self.idx(scope@),
            decreases self.entries.len() - i,
        {
            if self.entries[i].scope == *scope {
                return i;
            }
            i = i + 1;
        }
        i
    }

    /// The fresh token for `scope` at time `now`, if any.
    pub fn lookup(&self, scope: &String, now: u64) -> (r: Option<String>)
        ensures
            opt_view(r) == self.valid_token(scope@, now),
    {
        let i = self.find(scope);
        if i >= self.entries.len() {
            return None;
        }
        match &self.entries[i].token {
            None => None,
            Some(t) => match self.entries[i].expires_at {
                Some(e) => if now < e {
                    Some(t.clone())
                } else {
                    None
                },
                None => Some(t.clone()),
            },
        }
    }

    /// Whether a token request for `scope` is in flight.
    pub fn pending(&self, scope: &String) -> (r: bool)
        ensures
            r == self.is_pending(scope@),
    {
        let i = self.find(scope);
        i < self.entries.len() && self.entries[i].pending
    }

    /// Sets what the cache holds for `scope`, leaving every other scope as it was.
    fn set(&mut self, scope: &String, pending: bool, token: Option<String>, expires_at: Option<u64>)
        ensures
            final(self).is_pending(scope@) == pending,
            final(self).token_of(scope@) == match token {
                Some(t) => Some((t@, expires_at)),
                None => None::<(Seq<char>, Option<u64>)>,
            },
            forall|s: Seq<char>| s != scope@ ==> final(self).is_pending(s) == old(self).is_pending(s)
                && final(self).token_of(s) == old(self).token_of(s),
    {
        let i = self.find(scope);
        let entry = CacheEntry { scope: scope.clone(), pending, token, expires_at };
        let ghost old_e = self.entries@;
        if i < self.entries.len() {
            proof {
                lemma_index_found(old_e, scope@, 0);
            }
            self.entries.set(i, entry);
            proof {
                assert forall|j: int| 0 <= j < old_e.len() implies old_e[j].scope@ == #[trigger] self.entries@[j].scope@ by {
                    if j == i as int {
                    }
                }
                assert forall|s: Seq<char>| #[trigger] index_from(self.entries@, s, 0) == index_from(old_e, s, 0) by {
                    lemma_index_same_scopes(old_e, self.entries@, s, 0);
                }
            }
        } else {
            self.entries.push(entry);
            proof {
                assert forall|s: Seq<char>| s != scope@ ==> #[trigger] index_from(self.entries@, s, 0) == (if index_from(old_e, s, 0) < old_e.len() {
                    index_from(old_e, s, 0)
                } else {
                    self.entries@.len() as int
                }) by {
                    lemma_index_push(old_e, self.entries@, s, 0);
                }
                lemma_index_push(old_e, self.entries@, scope@, 0);
                lemma_index_bound(old_e, scope@, 0);
            }
        }
        proof {
            assert forall|s: Seq<char>| s != scope@ implies final(self).is_pending(s) == old(self).is_pending(s)
                && final(self).token_of(s) == old(self).token_of(s) by {
                lemma_index_bound(old_e, s, 0);
                lemma_index_bound(self.entries@, s, 0);
                if i < old_e.len() {
                    lemma_index_same_scopes(old_e, self.entries@, s, 0);
                    if index_from(old_e, s, 0) == i as int {
                        lemma_index_found(old_e, s, 0);
                        lemma_index_found(old_e, scope@, 0);
                    }
                } else {
                    lemma_index_push(old_e, self.entries@, s, 0);
                }
            }
        }
    }
}

proof fn lemma_index_bound(e: Seq<CacheEntry>, s: Seq<char>, from: int)
    requires
        0 <= from,
    ensures
        index_from(e, s, from) <= e.len(),
        from <= e.len() ==> from <= index_from(e, s, from),
    decreases e.len() - from,
{
    if from < e.len() && e[from].scope@ != s {
        lemma_index_bound(e, s, from + 1);
    }
}

proof fn lemma_index_found(e: Seq<CacheEntry>, s: Seq<char>, from: int)
    requires
        0 <= from,
        index_from(e, s, from) < e.len(),
    ensures
        e[index_from(e, s, from)].scope@ == s,
    decreases e.len() - from,
{
    if from < e.len() && e[from].scope@ != s {
        lemma_index_found(e, s, from + 1);
    }
}

proof fn lemma_index_same_scopes(a: Seq<CacheEntry>, b: Seq<CacheEntry>, s: Seq<char>, from: int)
    requires
        a.len() == b.len(),
        forall|j: int| 0 <= j < a.len() ==> a[j].scope@ == #[trigger] b[j].scope@,
    ensures
        index_from(a, s, from) == index_from(b, s, from),
    decreases a.len() - from,
{
    if 0 <= from < a.len() {
        assert(a[from].scope@ == b[from].scope@);
        lemma_index_same_scopes(a, b, s, from + 1);
    }
}

proof fn lemma_index_push(a: Seq<CacheEntry>, b: Seq<CacheEntry>, s: Seq<char>, from: int)
    requires
        0 <= from,
        b.len() == a.len() + 1,
        forall|j: int| 0 <= j < a.len() ==> a[j] == #[trigger] b[j],
    ensures
        index_from(a, s, from) < a.len() ==> index_from(b, s, from) == index_from(a, s, from),
        index_from(a, s, from) >= a.len() && from <= a.len() ==> index_from(b, s, from) == (if b[a.len() as int].scope@ == s {
            a.len() as int
        } else {
            b.len() as int
        }),
    decreases a.len() - from,
{
    if from < a.len() {
        assert(a[from] == b[from]);
        lemma_index_push(a, b, s, from + 1);
    } else if from == a.len() {
        assert(index_from(b, s, from + 1) == b.len());
    }
}

/// The string at a top-level key of the JSON object in `body`, as
/// `serde_json` reads it; nothing when the body is not such an object.
pub uninterp spec fn json_string_at(body: Seq<u8>, key: Seq<char>) -> Option<Seq<char>>;

/// The unsigned integer at a top-level key of the JSON object in `body`, as
/// `serde_json` reads it.
pub uninterp spec fn json_u64_at(body: Seq<u8>, key: Seq<char>) -> Option<u64>;

/// Relies on `serde_json::from_slice` and `serde_json::Value::get`: the
/// string value stored under `key` in the JSON object that `body` holds.
#[verifier::external_body]
fn json_string_field(body: &[u8], key: &str) -> (r: Option<String>)
    ensures
        opt_view(r) == json_string_at(body@, key@),
{
    match serde_json::from_slice::<serde_json::Value>(body) {
        Ok(v) => match v.get(key) {
            Some(serde_json::Value::String(s)) => Some(s.clone()),
            _ => None,
        },
        Err(_) => None,
    }
}

/// Relies on `serde_json::from_slice`, `serde_json::Value::get` and
/// `serde_json::Value::as_u64`: the unsigned integer stored under `key` in
/// the JSON object that `body` holds.
#[verifier::external_body]
fn json_u64_field(body: &[u8], key: &str) -> (r: Option<u64>)
    ensures
        r == json_u64_at(body@, key@),
{
    match serde_json::from_slice::<serde_json::Value>(body) {
        Ok(v) => match v.get(key) {
            Some(n) => n.as_u64(),
            None => None,
        },
        Err(_) => None,
    }
}

impl AuthEvent {
    /// The event for a token endpoint's answer: the body's `token` field and
    /// its `expires_in` lifetime in seconds.
    pub fn from_token_body(body: &[u8]) -> (r: AuthEvent)
        ensures
            r matches AuthEvent::Token(t, life) && opt_view(t) == json_string_at(body@, "token"@)
                && life == json_u64_at(body@, "expires_in"@),
    {
        AuthEvent::Token(json_string_field(body, "token"), json_u64_field(body, "expires_in"))
    }
}

/// `Bearer <token>`, the value of an `Authorization` header.
pub open spec fn bearer_header(token: Seq<char>) -> Seq<char> {
    seq!['B', 'e', 'a', 'r', 'e', 'r', ' '] + token
}

pub open spec fn field(sep: char, key: Seq<char>, value: Seq<char>) -> Seq<char> {
    seq![sep] + key + seq!['='] + value
}

/// The token endpoint's URL: the realm, then `service`, `scope` and
/// `account` as query fields, each only when known.
pub open spec fn token_url_spec(
    realm: Seq<char>,
    service: Option<Seq<char>>,
    scope: Option<Seq<char>>,
    account: Option<Seq<char>>,
) -> Seq<char> {
    let u1 = match service {
        Some(v) => realm + field('?', seq!['s', 'e', 'r', 'v', 'i', 'c', 'e'], v),
        None => realm,
    };
    let sep2 = if service is Some {
        '&'
    } else {
        '?'
    };
    let u2 = match scope {
        Some(v) => u1 + field(sep2, seq!['s', 'c', 'o', 'p', 'e'], v),
        None => u1,
    };
    let sep3 = if service is Some || scope is Some {
        '&'
    } else {
        '?'
    };
    match account {
        Some(v) => u2 + field(sep3, seq!['a', 'c', 'c', 'o', 'u', 'n', 't'], v),
        None => u2,
    }
}

/// The scope a challenge asks for; empty when it names none.
pub open spec fn scope_of(c: (bool, Seq<char>, Option<Seq<char>>, Option<Seq<char>>)) -> Seq<char> {
    match c.3 {
        Some(s) => s,
        None => Seq::empty(),
    }
}

fn append_field(url: &mut String, sep: char, key: &str, value: &String)
    ensures
        final(url)@ == old(url)@ + field(sep, key@, value@),
{
    crate::text::push_char(url, sep);
    url.append(key);
    proof {
        reveal_strlit("=");
    }
    url.append("=");
    url.append(value.as_str());
    assert(final(url)@ =~= old(url)@ + field(sep, key@, value@));
}

/// Builds the token endpoint's URL for a challenge.
pub fn token_url(realm: &String, service: &Option<String>, scope: &Option<String>, creds: &Credentials) -> (r: String)
    ensures
        r@ == token_url_spec(realm@, opt_view(*service), opt_view(*scope), creds.account()),
{
    let mut u = realm.clone();
    proof {
        reveal_strlit("service");
        reveal_strlit("scope");
        reveal_strlit("account");
    }
    match service {
        Some(v) => append_field(&mut u, '?', "service", v),
        None => {},
    }
    let sep2 = if service.is_some() {
        '&'
    } else {
        '?'
    };
    match scope {
        Some(v) => append_field(&mut u, sep2, "scope", v),
        None => {},
    }
    let sep3 = if service.is_some() || scope.is_some() {
        '&'
    } else {
        '?'
    };
    match creds {
        Credentials::UserPass(user, _) => append_field(&mut u, sep3, "account", user),
        Credentials::Anonymous => {},
    }
    proof {
        assert("service"@ =~= seq!['s', 'e', 'r', 'v', 'i', 'c', 'e']);
        assert("scope"@ =~= seq!['s', 'c', 'o', 'p', 'e']);
        assert("account"@ =~= seq!['a', 'c', 'c', 'o', 'u', 'n', 't']);
    }
    u
}

fn bearer(token: &String) -> (r: String)
    ensures
        r@ == bearer_header(token@),
{
    proof {
        reveal_strlit("Bearer ");
    }
    let mut h = String::from_str("Bearer ");
    h.append(token.as_str());
    assert(h@ =~= bearer_header(token@));
    h
}

/// Where one request stands in the authentication exchange.
#[derive(Debug, Clone, Copy, PartialEq, Eq, Structural)]
pub enum AuthState {
    /// Sent without credentials; no answer yet.
    Unauthenticated,
    /// Challenged; this request's token request is in flight.
    ChallengeReceived,
    /// Challenged; another request's token request for the scope is in flight.
    WaitingForToken,
    /// The one retry, with credentials, is in flight.
    TokenObtained,
    /// A final answer other than 401 came.
    Authorized,
    Failed,
}

/// What the caller does next.
#[derive(Debug, Clone)]
pub enum AuthAction {
    /// Send the request again with this `Authorization` value.
    Retry(String),
    /// Send the request again with the caller's basic credentials.
    RetryBasic,
    /// Request a token from this URL, with basic credentials when there are
    /// any, and report the answer with `AuthEvent::Token`.
    FetchToken(String),
    /// Wait until the token request in flight for the scope ends, then
    /// report `AuthEvent::Woken`.
    Wait,
    /// The last response is the final one.
    Done,
    Fail(ErrorKind),
}

/// What happened since the last action.
#[derive(Debug, Clone)]
pub enum AuthEvent {
    /// The request's response: its status and its `WWW-Authenticate` value.
    Response(u16, Option<String>),
    /// The token endpoint's answer: the token and its lifetime in seconds,
    /// or no token when the exchange failed.
    Token(Option<String>, Option<u64>),
    /// Another request's token request for the awaited scope ended.
    Woken,
}

/// The authentication exchange of one request. Each request retries at most
/// once after a challenge.
#[derive(Debug, Clone)]
pub struct AuthFlow {
    pub state: AuthState,
    /// The challenged scope.
    pub scope: String,
    /// Where a token for it is requested.
    pub token_url: String,
}

/// What one step of an exchange does: `f0` and `c0` are the exchange and
/// the cache before the event `ev` at time `now`, `f1` and `c1` after it,
/// and `r` the action returned.
pub open spec fn step_post(
    f0: AuthFlow,
    c0: TokenCache,
    creds: Credentials,
    now: u64,
    ev: AuthEvent,
    f1: AuthFlow,
    c1: TokenCache,
    r: AuthAction,
) -> bool {
    match (f0.state, ev) {
        (AuthState::Unauthenticated, AuthEvent::Response(status, ch)) => if status != 401 {
            r is Done && f1.state == AuthState::Authorized && c1 == c0
        } else {
            match ch {
                None => r == AuthAction::Fail(ErrorKind::Auth) && f1.state == AuthState::Failed && c1 == c0,
                Some(h) => match challenge_spec(h@) {
                    None => r == AuthAction::Fail(ErrorKind::Auth) && f1.state == AuthState::Failed && c1 == c0,
                    Some(c) => if !c.0 {
                        r is RetryBasic && f1.state == AuthState::TokenObtained && c1 == c0
                    } else {
                        f1.scope@ == scope_of(c)
                        && f1.token_url@ == token_url_spec(c.1, c.2, c.3, creds.account())
                        && match c0.valid_token(scope_of(c), now) {
                            Some(t) => r matches AuthAction::Retry(a) && a@ == bearer_header(t)
                                && f1.state == AuthState::TokenObtained && c1 == c0,
                            None => if c0.is_pending(scope_of(c)) {
                                r is Wait && f1.state == AuthState::WaitingForToken && c1 == c0
                            } else {
                                r matches AuthAction::FetchToken(u) && u@ == f1.token_url@
                                && f1.state == AuthState::ChallengeReceived
                                && c1.is_pending(scope_of(c))
                                && c1.token_of(scope_of(c)) == c0.token_of(scope_of(c))
                                && forall|s: Seq<char>| s != scope_of(c) ==> c1.is_pending(s) == c0.is_pending(s)
                                    && c1.token_of(s) == c0.token_of(s)
                            },
                        }
                    },
                },
            }
        },
        (AuthState::ChallengeReceived, AuthEvent::Token(tok, life)) => {
            &&& f1.scope@ == f0.scope@
            &&& !c1.is_pending(f0.scope@)
            &&& forall|s: Seq<char>| s != f0.scope@ ==> c1.is_pending(s) == c0.is_pending(s)
                && c1.token_of(s) == c0.token_of(s)
            &&& match tok {
                Some(t) => r matches AuthAction::Retry(a) && a@ == bearer_header(t@)
                    && f1.state == AuthState::TokenObtained
                    && c1.token_of(f0.scope@) == Some((t@, match life {
                        Some(l) => Some(if now + l > u64::MAX { u64::MAX } else { (now + l) as u64 }),
                        None => None,
                    })),
                None => r == AuthAction::Fail(ErrorKind::Auth) && f1.state == AuthState::Failed
                    && c1.token_of(f0.scope@) == c0.token_of(f0.scope@),
            }
        },
        (AuthState::WaitingForToken, AuthEvent::Woken) => {
            &&& f1.scope@ == f0.scope@
            &&& f1.token_url@ == f0.token_url@
            &&& match c0.valid_token(f0.scope@, now) {
                Some(t) => r matches AuthAction::Retry(a) && a@ == bearer_header(t)
                    && f1.state == AuthState::TokenObtained && c1 == c0,
                None => if c0.is_pending(f0.scope@) {
                    r is Wait && f1.state == AuthState::WaitingForToken && c1 == c0
                } else {
                    r matches AuthAction::FetchToken(u) && u@ == f0.token_url@
                    && f1.state == AuthState::ChallengeReceived
                    && c1.is_pending(f0.scope@)
                    && c1.token_of(f0.scope@) == c0.token_of(f0.scope@)
                    && forall|s: Seq<char>| s != f0.scope@ ==> c1.is_pending(s) == c0.is_pending(s)
                        && c1.token_of(s) == c0.token_of(s)
                },
            }
        },
        (AuthState::TokenObtained, AuthEvent::Response(status, _)) => if status == 401 {
            r == AuthAction::Fail(ErrorKind::Auth) && f1.state == AuthState::Failed
            && c1.token_of(f0.scope@) is None
            && c1.is_pending(f0.scope@) == c0.is_pending(f0.scope@)
            && forall|s: Seq<char>| s != f0.scope@ ==> c1.is_pending(s) == c0.is_pending(s)
                && c1.token_of(s) == c0.token_of(s)
        } else {
            r is Done && f1.state == AuthState::Authorized && c1 == c0
        },
        _ => r == AuthAction::Fail(ErrorKind::Protocol) && f1.state == AuthState::Failed
            && c1 == c0,
    }
}

impl AuthFlow {
    /// The exchange of a request that has just been sent.
    pub fn new() -> (r: AuthFlow)
        ensures
            r.state == AuthState::Unauthenticated,
    {
        AuthFlow { state: AuthState::Unauthenticated, scope: String::new(), token_url: String::new() }
    }

    /// Takes the next event and says what to do.
    pub fn step(&mut self, cache: &mut TokenCache, creds: &Credentials, now: u64, ev: AuthEvent) -> (r: AuthAction)
        ensures
            step_post(*old(self), *old(cache), *creds, now, ev, *final(self), *final(cache), r),
    {
        match (self.state, ev) {
            (AuthState::Unauthenticated, AuthEvent::Response(status, ch)) => {
                if status != 401 {
                    self.state = AuthState::Authorized;
                    return AuthAction::Done;
                }
                let h = match ch {
                    None => {
                        self.state = AuthState::Failed;
                        return AuthAction::Fail(ErrorKind::Auth);
                    },
                    Some(h) => h,
                };
                let c = match parse_challenge(h.as_str()) {
                    None => {
                        self.state = AuthState::Failed;
                        return AuthAction::Fail(ErrorKind::Auth);
                    },
                    Some(c) => c,
                };
                if !c.bearer {
                    self.state = AuthState::TokenObtained;
                    return AuthAction::RetryBasic;
                }
                self.scope = match &c.scope {
                    Some(s) => s.clone(),
                    None => String::new(),
                };
                self.token_url = token_url(&c.realm, &c.service, &c.scope, creds);
                self.await_token(cache, now)
            },
            (AuthState::ChallengeReceived, AuthEvent::Token(tok, life)) => {
                let expires_at = match life {
                    Some(l) => Some(if l > u64::MAX - now { u64::MAX } else { now + l }),
                    None => None,
                };
                match tok {
                    Some(t) => {
                        let a = bearer(&t);
                        cache.set(&self.scope, false, Some(t), expires_at);
                        self.state = AuthState::TokenObtained;
                        AuthAction::Retry(a)
                    },
                    None => {
                        let i = cache.find(&self.scope);
                        let (old_tok, old_exp) = if i < cache.entries.len() {
                            (cache.entries[i].token.clone(), cache.entries[i].expires_at)
                        } else {
                            (None, None)
                        };
                        cache.set(&self.scope, false, old_tok, old_exp);
                        self.state = AuthState::Failed;
                        AuthAction::Fail(ErrorKind::Auth)
                    },
                }
            },
            (AuthState::WaitingForToken, AuthEvent::Woken) => self.await_token(cache, now),
            (AuthState::TokenObtained, AuthEvent::Response(status, _)) => {
                if status == 401 {
                    let p = cache.pending(&self.scope);
                    cache.set(&self.scope, p, None, None);
                    self.state = AuthState::Failed;
                    AuthAction::Fail(ErrorKind::Auth)
                } else {
                    self.state = AuthState::Authorized;
                    AuthAction::Done
                }
            },
            _ => {
                self.state = AuthState::Failed;
                AuthAction::Fail(ErrorKind::Protocol)
            },
        }
    }

    /// Uses a fresh cached token, waits for one in flight, or requests one.
    fn await_token(&mut self, cache: &mut TokenCache, now: u64) -> (r: AuthAction)
        ensures
            final(self).scope@ == old(self).scope@,
            final(self).token_url@ == old(self).token_url@,
            match old(cache).valid_token(old(self).scope@, now) {
                Some(t) => r matches AuthAction::Retry(a) && a@ == bearer_header(t)
                    && final(self).state == AuthState::TokenObtained && *final(cache) == *old(cache),
                None => if old(cache).is_pending(old(self).scope@) {
                    r is Wait && final(self).state == AuthState::WaitingForToken && *final(cache) == *old(cache)
                } else {
                    r matches AuthAction::FetchToken(u) && u@ == old(self).token_url@
                    && final(self).state == AuthState::ChallengeReceived
                    && final(cache).is_pending(old(self).scope@)
                    && final(cache).token_of(old(self).scope@) == old(cache).token_of(old(self).scope@)
                    && forall|s: Seq<char>| s != old(self).scope@ ==> final(cache).is_pending(s) == old(cache).is_pending(s)
                        && final(cache).token_of(s) == old(cache).token_of(s)
                },
            },
    {
        match cache.lookup(&self.scope, now) {
            Some(t) => {
                self.state = AuthState::TokenObtained;
                AuthAction::Retry(bearer(&t))
            },
            None => {
                if cache.pending(&self.scope) {
                    self.state = AuthState::WaitingForToken;
                    AuthAction::Wait
                } else {
                    let i = cache.find(&self.scope);
                    let (old_tok, old_exp) = if i < cache.entries.len() {
                        (cache.entries[i].token.clone(), cache.entries[i].expires_at)
                    } else {
                        (None, None)
                    };
                    cache.set(&self.scope, true, old_tok, old_exp);
                    self.state = AuthState::ChallengeReceived;
                    AuthAction::FetchToken(self.token_url.clone())
                }
            },
        }
    }
}

/// One token exchange serves every request of a scope: once an exchange has
/// stored a token, a later request challenged for the same scope while that
/// token is fresh retries with it at once and leaves the cache as it is, so
/// no second token request is made.
pub proof fn law_one_exchange_per_scope(
    creds: Credentials,
    first: AuthFlow,
    cache0: TokenCache,
    now1: u64,
    token: String,
    life: Option<u64>,
    first_after: AuthFlow,
    cache1: TokenCache,
    action1: AuthAction,
    second: AuthFlow,
    challenge: String,
    now2: u64,
    second_after: AuthFlow,
    cache2: TokenCache,
    action2: AuthAction,
)
    requires
        first.state == AuthState::ChallengeReceived,
        step_post(first, cache0, creds, now1, AuthEvent::Token(Some(token), life), first_after, cache1, action1),
        second.state == AuthState::Unauthenticated,
        step_post(second, cache1, creds, now2, AuthEvent::Response(401, Some(challenge)), second_after, cache2, action2),
        challenge_spec(challenge@) matches Some(c) && c.0 && scope_of(c) == first.scope@,
        life matches Some(l) ==> now2 < now1 + l && now2 < u64::MAX,
    ensures
        action1 matches AuthAction::Retry(a) && a@ == bearer_header(token@),
        action2 matches AuthAction::Retry(a) && a@ == bearer_header(token@),
        second_after.state == AuthState::TokenObtained,
        cache2 == cache1,
{
}

/// A request is retried at most once: once its retry is out, the next
/// event ends the exchange, successfully or not.
pub proof fn law_single_retry(
    creds: Credentials,
    f0: AuthFlow,
    c0: TokenCache,
    now: u64,
    ev: AuthEvent,
    f1: AuthFlow,
    c1: TokenCache,
    r: AuthAction,
)
    requires
        f0.state == AuthState::TokenObtained,
        step_post(f0, c0, creds, now, ev, f1, c1, r),
    ensures
        r is Done || r is Fail,
        f1.state == AuthState::Authorized || f1.state == AuthState::Failed,
{
}

/// At most one token request per scope is in flight: a step asks for a
/// token only for a scope with no request in flight, and marks that scope
/// in flight, so concurrent requests for it wait instead of asking again.
pub proof fn law_one_token_request_in_flight(
    creds: Credentials,
    f0: AuthFlow,
    c0: TokenCache,
    now: u64,
    ev: AuthEvent,
    f1: AuthFlow,
    c1: TokenCache,
    r: AuthAction,
)
    requires
        step_post(f0, c0, creds, now, ev, f1, c1, r),
        r is FetchToken,
    ensures
        !c0.is_pending(f1.scope@),
        c1.is_pending(f1.scope@),
        f1.state == AuthState::ChallengeReceived,
{
}

} // verus!
