use homebridge_rusty_spotify::node_fetch::{FetchMethod, FetchRequest};
use homebridge_rusty_spotify::spotify_api::{
    ApiError, AuthError, Authorization, SpotifyApi, SpotifyAuthorization, SpotifyDevice, SpotifyPlayback,
    DEFAULT_VOLUME,
};

fn playback(id: &str, is_playing: bool, volume_percent: u32) -> SpotifyPlayback {
    SpotifyPlayback {
        device: SpotifyDevice { id: id.to_string(), is_active: true, volume_percent, name: "Kitchen".to_string() },
        is_playing,
    }
}

fn assert_player_request(request: &FetchRequest, method: FetchMethod, url: &str, empty_response: bool) {
    assert_eq!(request.method, method);
    assert_eq!(request.url, url);
    assert_eq!(request.body, "");
    assert_eq!(request.headers.len(), 1);
    assert_eq!(request.headers[0].name, "Authorization");
    assert_eq!(request.headers[0].value, "Bearer abc123");
    assert_eq!(request.empty_response, empty_response);
}

#[test]
fn method_names() {
    assert_eq!(FetchMethod::Get.as_str(), "GET");
    assert_eq!(FetchMethod::Post.as_str(), "POST");
    assert_eq!(FetchMethod::Put.as_str(), "PUT");
}

#[test]
fn play_and_pause_requests() {
    assert_player_request(
        &SpotifyApi::play("abc123", "dev-1"),
        FetchMethod::Put,
        "https://api.spotify.com/v1/me/player/play?device_id=dev-1",
        true,
    );
    assert_player_request(
        &SpotifyApi::pause("abc123", "dev-1"),
        FetchMethod::Put,
        "https://api.spotify.com/v1/me/player/pause?device_id=dev-1",
        true,
    );
}

#[test]
fn playback_state_requests() {
    assert_player_request(
        &SpotifyApi::is_playing("abc123", "dev-1"),
        FetchMethod::Get,
        "https://api.spotify.com/v1/me/player?device_id=dev-1",
        false,
    );
    assert_player_request(
        &SpotifyApi::get_volume("abc123", "dev-1"),
        FetchMethod::Get,
        "https://api.spotify.com/v1/me/player?device_id=dev-1",
        false,
    );
}

#[test]
fn devices_request() {
    assert_player_request(
        &SpotifyApi::get_devices("abc123"),
        FetchMethod::Get,
        "https://api.spotify.com/v1/me/player/devices",
        false,
    );
}

#[test]
fn set_volume_request_writes_the_percentage_in_decimal() {
    let cases: [(u32, &str); 8] = [
        (0, "0"),
        (7, "7"),
        (10, "10"),
        (50, "50"),
        (99, "99"),
        (100, "100"),
        (1203, "1203"),
        (u32::MAX, "4294967295"),
    ];
    for (volume, text) in cases {
        assert_player_request(
            &SpotifyApi::set_volume("abc123", "dev-1", volume),
            FetchMethod::Put,
            &format!("https://api.spotify.com/v1/me/player/volume?volume_percent={}&device_id=dev-1", text),
            true,
        );
    }
}

#[test]
fn requests_carry_the_token_that_the_cache_hands_out() {
    let mut api = SpotifyApi::new("id".to_string(), "secret".to_string(), "refresh".to_string());
    assert!(matches!(api.authorize(100), Authorization::Refresh(_)));
    let granted = SpotifyAuthorization {
        access_token: "first".to_string(),
        token_type: "Bearer".to_string(),
        expires_in: 3600,
        refresh_token: None,
    };
    let grant = api.complete_refresh(100, Ok(granted)).expect("the exchange succeeded");
    assert_eq!(SpotifyApi::play(&grant.access_token, "d").headers[0].value, "Bearer first");
    match api.authorize(200) {
        Authorization::Token(token) => {
            assert_eq!(SpotifyApi::pause(&token, "d").headers[0].value, "Bearer first")
        }
        other => panic!("expected the cached token, got {:?}", other),
    }
}

#[test]
fn playing_needs_playback_on_this_device() {
    assert!(SpotifyApi::playing_from(&Ok(playback("dev-1", true, 30)), "dev-1"));
    assert!(!SpotifyApi::playing_from(&Ok(playback("dev-1", false, 30)), "dev-1"));
    assert!(!SpotifyApi::playing_from(&Ok(playback("dev-2", true, 30)), "dev-1"));
}

#[test]
fn failed_probe_reads_as_not_playing() {
    for error in [ApiError::Transport, ApiError::Decode, ApiError::Auth(AuthError::RefreshFailed)] {
        assert!(!SpotifyApi::playing_from(&Err(error), "dev-1"));
    }
}

#[test]
fn volume_is_read_from_the_active_device() {
    assert_eq!(SpotifyApi::volume_from(&Ok(playback("dev-1", true, 30))), 30);
    assert_eq!(SpotifyApi::volume_from(&Ok(playback("dev-1", false, 0))), 0);
}

#[test]
fn failed_probe_reads_the_default_volume() {
    assert_eq!(DEFAULT_VOLUME, 50);
    for error in [ApiError::Transport, ApiError::Decode, ApiError::Auth(AuthError::RefreshFailed)] {
        assert_eq!(SpotifyApi::volume_from(&Err(error)), 50);
    }
}
