use containrs::auth::{token_url, AuthAction, AuthEvent, AuthFlow, AuthState, Credentials, TokenCache};
use containrs::challenge::parse_challenge;
use containrs::error::ErrorKind;

const CHALLENGE: &str = "Bearer realm=\"https://auth.docker.io/token\",service=\"registry.docker.io\",scope=\"repository:library/ubuntu:pull\"";
const TOKEN_URL: &str = "https://auth.docker.io/token?service=registry.docker.io&scope=repository:library/ubuntu:pull";

fn unauthorized() -> AuthEvent {
    AuthEvent::Response(401, Some(CHALLENGE.to_string()))
}

#[test]
fn bearer_challenge_parses() {
    let c = parse_challenge(CHALLENGE).unwrap();
    assert!(c.bearer);
    assert_eq!(c.realm, "https://auth.docker.io/token");
    assert_eq!(c.service.as_deref(), Some("registry.docker.io"));
    assert_eq!(c.scope.as_deref(), Some("repository:library/ubuntu:pull"));
}

#[test]
fn scope_may_hold_commas() {
    let c = parse_challenge("Bearer realm=\"r\",scope=\"repository:a:pull,push\"").unwrap();
    assert_eq!(c.scope.as_deref(), Some("repository:a:pull,push"));
    assert_eq!(c.service, None);
}

#[test]
fn basic_challenge_parses() {
    let c = parse_challenge("Basic realm=\"Registry\"").unwrap();
    assert!(!c.bearer);
    assert_eq!(c.realm, "Registry");
    let d = parse_challenge("Basic").unwrap();
    assert!(!d.bearer);
    assert_eq!(d.realm, "");
}

#[test]
fn malformed_challenges_are_refused() {
    for h in ["", "Digest realm=\"x\"", "Bearer", "Bearer service=\"x\"", "Bearer realm=x", "Bearer realm=\"x", "Bearer realm=\"x\";scope=\"y\""] {
        assert!(parse_challenge(h).is_none(), "{}", h);
    }
}

#[test]
fn token_url_lists_known_fields() {
    let realm = "https://auth.example/token".to_string();
    let anon = Credentials::Anonymous;
    let user = Credentials::UserPass("me".to_string(), "SECRET-REDACTED".to_string());
    assert_eq!(token_url(&realm, &None, &None, &anon), "https://auth.example/token");
    assert_eq!(token_url(&realm, &None, &Some("s".to_string()), &user), "https://auth.example/token?scope=s&account=me");
    assert_eq!(token_url(&realm, &Some("svc".to_string()), &None, &anon), "https://auth.example/token?service=svc");
}

#[test]
fn one_token_exchange_serves_two_requests() {
    let mut cache = TokenCache::new();
    let creds = Credentials::Anonymous;
    let mut exchanges = 0;

    let mut first = AuthFlow::new();
    match first.step(&mut cache, &creds, 0, unauthorized()) {
        AuthAction::FetchToken(url) => {
            assert_eq!(url, TOKEN_URL);
            exchanges += 1;
        }
        other => panic!("unexpected {:?}", other),
    }
    assert!(cache.pending(&"repository:library/ubuntu:pull".to_string()));
    let ev = AuthEvent::from_token_body(b"{\"token\": \"tok\", \"expires_in\": 300}");
    match first.step(&mut cache, &creds, 0, ev) {
        AuthAction::Retry(h) => assert_eq!(h, "Bearer tok"),
        other => panic!("unexpected {:?}", other),
    }
    assert!(matches!(first.step(&mut cache, &creds, 1, AuthEvent::Response(200, None)), AuthAction::Done));
    assert_eq!(first.state, AuthState::Authorized);

    let mut second = AuthFlow::new();
    match second.step(&mut cache, &creds, 10, unauthorized()) {
        AuthAction::Retry(h) => assert_eq!(h, "Bearer tok"),
        AuthAction::FetchToken(_) => exchanges += 1,
        other => panic!("unexpected {:?}", other),
    }
    assert!(matches!(second.step(&mut cache, &creds, 11, AuthEvent::Response(200, None)), AuthAction::Done));
    assert_eq!(exchanges, 1);
}

#[test]
fn stale_token_is_requested_again() {
    let mut cache = TokenCache::new();
    let creds = Credentials::Anonymous;
    let mut f = AuthFlow::new();
    f.step(&mut cache, &creds, 0, unauthorized());
    f.step(&mut cache, &creds, 0, AuthEvent::Token(Some("tok".to_string()), Some(60)));
    assert_eq!(cache.lookup(&"repository:library/ubuntu:pull".to_string(), 59).as_deref(), Some("tok"));
    assert_eq!(cache.lookup(&"repository:library/ubuntu:pull".to_string(), 60), None);
    let mut g = AuthFlow::new();
    assert!(matches!(g.step(&mut cache, &creds, 61, unauthorized()), AuthAction::FetchToken(_)));
}

#[test]
fn second_unauthorized_answer_is_final() {
    let mut cache = TokenCache::new();
    let creds = Credentials::Anonymous;
    let mut f = AuthFlow::new();
    f.step(&mut cache, &creds, 0, unauthorized());
    f.step(&mut cache, &creds, 0, AuthEvent::Token(Some("tok".to_string()), None));
    let r = f.step(&mut cache, &creds, 0, unauthorized());
    assert!(matches!(r, AuthAction::Fail(ErrorKind::Auth)));
    assert_eq!(f.state, AuthState::Failed);
    assert_eq!(cache.lookup(&"repository:library/ubuntu:pull".to_string(), 0), None);
}

#[test]
fn concurrent_request_waits_for_the_fetch_in_flight() {
    let mut cache = TokenCache::new();
    let creds = Credentials::Anonymous;
    let mut a = AuthFlow::new();
    let mut b = AuthFlow::new();
    assert!(matches!(a.step(&mut cache, &creds, 0, unauthorized()), AuthAction::FetchToken(_)));
    assert!(matches!(b.step(&mut cache, &creds, 0, unauthorized()), AuthAction::Wait));
    assert_eq!(b.state, AuthState::WaitingForToken);
    assert!(matches!(b.step(&mut cache, &creds, 0, AuthEvent::Woken), AuthAction::Wait));
    a.step(&mut cache, &creds, 0, AuthEvent::Token(Some("t".to_string()), None));
    match b.step(&mut cache, &creds, 0, AuthEvent::Woken) {
        AuthAction::Retry(h) => assert_eq!(h, "Bearer t"),
        other => panic!("unexpected {:?}", other),
    }
}

#[test]
fn failed_exchange_lets_a_waiter_fetch() {
    let mut cache = TokenCache::new();
    let creds = Credentials::Anonymous;
    let mut a = AuthFlow::new();
    let mut b = AuthFlow::new();
    a.step(&mut cache, &creds, 0, unauthorized());
    b.step(&mut cache, &creds, 0, unauthorized());
    let r = a.step(&mut cache, &creds, 0, AuthEvent::from_token_body(b"not json"));
    assert!(matches!(r, AuthAction::Fail(ErrorKind::Auth)));
    assert!(matches!(b.step(&mut cache, &creds, 0, AuthEvent::Woken), AuthAction::FetchToken(_)));
}

#[test]
fn basic_challenge_retries_once() {
    let mut cache = TokenCache::new();
    let creds = Credentials::UserPass("u".to_string(), "p".to_string());
    let mut f = AuthFlow::new();
    let r = f.step(&mut cache, &creds, 0, AuthEvent::Response(401, Some("Basic realm=\"x\"".to_string())));
    assert!(matches!(r, AuthAction::RetryBasic));
    let r = f.step(&mut cache, &creds, 0, AuthEvent::Response(401, Some("Basic realm=\"x\"".to_string())));
    assert!(matches!(r, AuthAction::Fail(ErrorKind::Auth)));
}

#[test]
fn unchallenged_and_unexpected_answers() {
    let mut cache = TokenCache::new();
    let creds = Credentials::Anonymous;
    let mut f = AuthFlow::new();
    assert!(matches!(f.step(&mut cache, &creds, 0, AuthEvent::Response(200, None)), AuthAction::Done));
    let mut g = AuthFlow::new();
    assert!(matches!(g.step(&mut cache, &creds, 0, AuthEvent::Response(401, None)), AuthAction::Fail(ErrorKind::Auth)));
    let mut h = AuthFlow::new();
    assert!(matches!(h.step(&mut cache, &creds, 0, AuthEvent::Woken), AuthAction::Fail(ErrorKind::Protocol)));
}

#[test]
fn token_body_fields_are_read() {
    match AuthEvent::from_token_body(b"{\"token\":\"abc\"}") {
        AuthEvent::Token(t, life) => {
            assert_eq!(t.as_deref(), Some("abc"));
            assert_eq!(life, None);
        }
        other => panic!("unexpected {:?}", other),
    }
}
