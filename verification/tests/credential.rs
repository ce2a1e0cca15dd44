use homebridge_rusty_spotify::node_fetch::{FetchMethod, FetchRequest};
use homebridge_rusty_spotify::spotify_api::{
    basic_authorization_header, ApiError, AuthError, Authorization, SpotifyApi, SpotifyAuthorization,
    ACCESS_TOKEN_LIFETIME,
};

const T0: u64 = 1_700_000_000;

fn api() -> SpotifyApi {
    SpotifyApi::new("id".to_string(), "secret".to_string(), "refresh-1".to_string())
}

fn granted(access_token: &str, refresh_token: Option<&str>) -> SpotifyAuthorization {
    SpotifyAuthorization {
        access_token: access_token.to_string(),
        token_type: "Bearer".to_string(),
        expires_in: 3600,
        refresh_token: refresh_token.map(|t| t.to_string()),
    }
}

fn exchange(answer: Authorization) -> FetchRequest {
    match answer {
        Authorization::Refresh(request) => request,
        other => panic!("expected a token exchange, got {:?}", other),
    }
}

fn token(answer: Authorization) -> String {
    match answer {
        Authorization::Token(token) => token,
        other => panic!("expected the cached token, got {:?}", other),
    }
}

fn headers(request: &FetchRequest) -> Vec<(&str, &str)> {
    request.headers.iter().map(|h| (h.name.as_str(), h.value.as_str())).collect()
}

#[test]
fn lifetime_is_fifty_minutes() {
    assert_eq!(ACCESS_TOKEN_LIFETIME, 3000);
}

#[test]
fn new_cache_holds_no_token() {
    let mut api = api();
    assert_eq!(api.access_token(), "");
    assert_eq!(api.refresh_token(), "refresh-1");
    assert!(!api.is_refreshing());
    assert!(!api.is_fresh(0));
    assert!(!api.is_fresh(T0));
    // even at the very start of time the empty token is not handed out
    assert!(matches!(api.authorize(0), Authorization::Refresh(_)));
}

#[test]
fn token_exchange_is_a_refresh_grant_with_basic_auth() {
    let mut api = api();
    let request = exchange(api.authorize(T0));
    assert_eq!(request.url, "https://accounts.spotify.com/api/token");
    assert_eq!(request.method, FetchMethod::Post);
    assert_eq!(request.body, "grant_type=refresh_token&refresh_token=refresh-1");
    assert_eq!(
        headers(&request),
        vec![
            ("Content-Type", "application/x-www-form-urlencoded;charset=UTF-8"),
            ("Authorization", "Basic aWQ6c2VjcmV0"),
        ]
    );
    assert!(!request.empty_response);
}

#[test]
fn basic_authorization_encodes_id_and_secret() {
    assert_eq!(basic_authorization_header("id", "secret"), Some("Basic aWQ6c2VjcmV0".to_string()));
    assert_eq!(
        basic_authorization_header("client", "s3cr3t!"),
        Some("Basic Y2xpZW50OnMzY3IzdCE=".to_string())
    );
    assert_eq!(basic_authorization_header("klüb", "päss"), Some("Basic a2zDvGI6cMOkc3M=".to_string()));
    assert_eq!(basic_authorization_header("", ""), Some("Basic Og==".to_string()));
}

#[test]
fn fresh_token_is_served_without_a_second_exchange() {
    let mut api = api();
    exchange(api.authorize(T0));
    let grant = api.complete_refresh(T0, Ok(granted("access-1", None))).expect("the exchange succeeded");
    assert_eq!(grant.access_token, "access-1");
    assert!(grant.rotation.is_none());

    for now in [T0, T0 + 1, T0 + 1500, T0 + 2999, T0 + 3000, T0, T0 - 5] {
        assert!(api.is_fresh(now));
        assert_eq!(token(api.authorize(now)), "access-1");
        assert!(!api.is_refreshing());
    }
}

#[test]
fn stale_token_triggers_exactly_one_exchange() {
    let mut api = api();
    exchange(api.authorize(T0));
    api.complete_refresh(T0, Ok(granted("access-1", None))).expect("the exchange succeeded");

    let now = T0 + 3001;
    assert!(!api.is_fresh(now));
    let mut exchanges = 0;
    let mut waiting = 0;
    for _ in 0..5 {
        match api.authorize(now) {
            Authorization::Refresh(_) => exchanges += 1,
            Authorization::Pending => waiting += 1,
            other => panic!("unexpected answer {:?}", other),
        }
    }
    assert_eq!(exchanges, 1);
    assert_eq!(waiting, 4);
    assert!(api.is_refreshing());

    api.complete_refresh(now + 2, Ok(granted("access-2", None))).expect("the exchange succeeded");
    assert!(!api.is_refreshing());
    assert_eq!(token(api.authorize(now + 2)), "access-2");
    assert_eq!(token(api.authorize(now + 3002)), "access-2");
    assert!(matches!(api.authorize(now + 3003), Authorization::Refresh(_)));
}

#[test]
fn first_caller_of_concurrent_callers_gets_the_exchange() {
    let mut api = api();
    assert!(matches!(api.authorize(T0), Authorization::Refresh(_)));
    assert!(matches!(api.authorize(T0), Authorization::Pending));
    assert!(matches!(api.authorize(T0 + 10), Authorization::Pending));
}

#[test]
fn rotated_refresh_token_replaces_the_old_one() {
    let mut api = api();
    exchange(api.authorize(T0));
    let grant = api
        .complete_refresh(T0, Ok(granted("access-1", Some("refresh-2"))))
        .expect("the exchange succeeded");
    let rotation = grant.rotation.expect("the refresh token was rotated");
    assert_eq!(rotation.old_refresh_token, "refresh-1");
    assert_eq!(rotation.new_refresh_token, "refresh-2");
    assert_eq!(api.refresh_token(), "refresh-2");

    // the next exchange presents the new value
    let request = exchange(api.authorize(T0 + 3001));
    assert_eq!(request.body, "grant_type=refresh_token&refresh_token=refresh-2");
}

#[test]
fn failed_exchange_keeps_the_cached_values() {
    let mut api = api();
    exchange(api.authorize(T0));
    api.complete_refresh(T0, Ok(granted("access-1", Some("refresh-2")))).expect("the exchange succeeded");

    for error in [ApiError::Transport, ApiError::Decode] {
        let later = T0 + 4000;
        exchange(api.authorize(later));
        let outcome = api.complete_refresh(later, Err(error));
        assert_eq!(outcome.err(), Some(AuthError::RefreshFailed));
        assert_eq!(api.access_token(), "access-1");
        assert_eq!(api.refresh_token(), "refresh-2");
        assert!(!api.is_refreshing());
        // the old token is still served for the time it is fresh
        assert_eq!(token(api.authorize(T0 + 3000)), "access-1");
        // and the next request at a stale time tries again
        assert!(!api.is_fresh(later));
    }
    assert!(matches!(api.authorize(T0 + 4000), Authorization::Refresh(_)));
}

#[test]
fn freshness_is_counted_from_the_exchange() {
    let mut api = api();
    exchange(api.authorize(T0));
    api.complete_refresh(T0 + 7, Ok(granted("access-1", None))).expect("the exchange succeeded");
    assert!(api.is_fresh(T0 + 3007));
    assert!(!api.is_fresh(T0 + 3008));
}
