//! The remote player API: the credential cache that fronts the token
//! exchange, the requests the player understands and the reading of its answers.

use vstd::prelude::*;
use vstd::utf8::encode_utf8;
use crate::node_fetch::{FetchMethod, FetchRequest, Header, RequestView};

verus! {

/// Seconds for which an access token is used after it was issued. The provider lets
/// a token expire after an hour; the cache asks for a new one after 50 minutes.
pub const ACCESS_TOKEN_LIFETIME: u64 = 3000;

/// Information of a device as the remote API reports it: an immutable snapshot of one poll.
#[derive(Debug)]
pub struct SpotifyDevice {
    pub id: String,
    pub is_active: bool,
    pub volume_percent: u32,
    pub name: String,
}

/// The list of devices that one poll reported as available.
#[derive(Debug)]
pub struct SpotifyDevices {
    pub devices: Vec<SpotifyDevice>,
}

/// Why no access token could be had.
#[derive(Clone, Copy, Debug, PartialEq, Eq, Structural)]
pub enum AuthError {
    /// The token exchange failed: the call did not complete, its body could not
    /// be read, or the credentials are too long for the call to be made at all.
    RefreshFailed,
}

/// Why a call to the remote API gave no answer.
#[derive(Clone, Copy, Debug, PartialEq, Eq, Structural)]
pub enum ApiError {
    /// No access token could be had for the call.
    Auth(AuthError),
    /// The call failed before it reached the API.
    Transport,
    /// The response body did not have the expected shape.
    Decode,
}

/// The volume reported for a device whose volume could not be read.
pub const DEFAULT_VOLUME: u32 = 50;

/// Represents the response when requesting the playback state.
#[derive(Debug)]
pub struct SpotifyPlayback {
    pub device: SpotifyDevice,
    pub is_playing: bool,
}

/// The ids of a list of devices, in order.
pub open spec fn device_ids(devices: Seq<SpotifyDevice>) -> Seq<Seq<char>> {
    devices.map_values(|d: SpotifyDevice| d.id@)
}

/// The answer of the provider to a token exchange.
#[derive(Debug)]
pub struct SpotifyAuthorization {
    pub access_token: String,
    pub token_type: String,
    pub expires_in: u64,
    /// A new refresh token, where the provider rotated it
    pub refresh_token: Option<String>,
}

/// A refresh token that the provider replaced. The old value may already be
/// invalid: the new one has to reach the stored configuration.
#[derive(Debug)]
pub struct Rotation {
    pub old_refresh_token: String,
    pub new_refresh_token: String,
}

/// What a successful token exchange brought.
#[derive(Debug)]
pub struct TokenGrant {
    pub access_token: String,
    /// Set where the refresh token changed and has to be persisted
    pub rotation: Option<Rotation>,
}

/// The standard base64 encoding, with padding, of a sequence of bytes.
pub uninterp spec fn base64_encoding(bytes: Seq<u8>) -> Seq<char>;

/// Whether the base64 encoding of `len` bytes, four characters for every three
/// bytes begun, is no longer than a buffer can be: half of `usize::MAX`.
pub open spec fn base64_fits(len: nat) -> bool {
    (len / 3) * 4 + (if len % 3 > 0 { 4int } else { 0int }) <= usize::MAX / 2
}

/// Calls `base64::encode`, which returns the standard base64 encoding of the bytes as a
/// `String`. It panics where the length of the encoding overflows a `usize` or is more
/// than a buffer can hold: the precondition leaves those inputs out. What the encoding
/// is, is not stated here, only that it is the same for the same bytes.
#[verifier::external_body]
fn base64_encode(bytes: &[u8]) -> (encoded: String)
    requires
        base64_fits(bytes@.len()),
    ensures
        encoded@ == base64_encoding(bytes@),
{
    base64::encode(bytes)
}

/// The value of the `Authorization` header of a token exchange: HTTP Basic
/// authentication with the client's id and secret.
pub open spec fn basic_authorization(client_id: Seq<char>, client_secret: Seq<char>) -> Seq<char> {
    "Basic "@ + base64_encoding(encode_utf8(client_id + ":"@ + client_secret))
}

/// Whether the Basic authentication of these credentials can be encoded.
pub open spec fn credentials_fit(client_id: Seq<char>, client_secret: Seq<char>) -> bool {
    base64_fits(encode_utf8(client_id + ":"@ + client_secret).len())
}

/// The body of a token exchange: a refresh-token grant.
pub open spec fn refresh_body(refresh_token: Seq<char>) -> Seq<char> {
    "grant_type=refresh_token&refresh_token="@ + refresh_token
}

/// Build the `Authorization` header value of a token exchange. There is none where
/// the credentials are too long for their encoding to fit in memory.
pub fn basic_authorization_header(client_id: &str, client_secret: &str) -> (header: Option<String>)
    ensures
        match header {
            Some(value) => credentials_fit(client_id@, client_secret@) && value@ == basic_authorization(
                client_id@,
                client_secret@,
            ),
            None => !credentials_fit(client_id@, client_secret@),
        },
{
    let mut token = client_id.to_owned();
    token.append(":");
    token.append(client_secret);
    let bytes = token.as_str().as_bytes();
    let len = bytes.len();
    let limit = usize::MAX / 2;
    let chunks = len / 3;
    if chunks > limit / 4 {
        return None;
    }
    if len % 3 > 0 && chunks * 4 > limit - 4 {
        return None;
    }
    let encoded = base64_encode(bytes);
    let mut value = "Basic ".to_owned();
    value.append(encoded.as_str());
    Some(value)
}

/// One decimal digit as text.
pub open spec fn digit(d: int) -> Seq<char> {
    if d == 0 {
        "0"@
    } else if d == 1 {
        "1"@
    } else if d == 2 {
        "2"@
    } else if d == 3 {
        "3"@
    } else if d == 4 {
        "4"@
    } else if d == 5 {
        "5"@
    } else if d == 6 {
        "6"@
    } else if d == 7 {
        "7"@
    } else if d == 8 {
        "8"@
    } else {
        "9"@
    }
}

/// A number in decimal notation, without leading zeros.
pub open spec fn decimal(n: nat) -> Seq<char>
    decreases n,
{
    if n < 10 {
        digit(n as int)
    } else {
        decimal(n / 10) + digit((n % 10) as int)
    }
}

fn digit_text(d: u32) -> (text: &'static str)
    requires
        d < 10,
    ensures
        text@ == digit(d as int),
{
    if d == 0 {
        "0"
    } else if d == 1 {
        "1"
    } else if d == 2 {
        "2"
    } else if d == 3 {
        "3"
    } else if d == 4 {
        "4"
    } else if d == 5 {
        "5"
    } else if d == 6 {
        "6"
    } else if d == 7 {
        "7"
    } else if d == 8 {
        "8"
    } else {
        "9"
    }
}

fn append_decimal(text: &mut String, n: u32)
    ensures
        final(text)@ == old(text)@ + decimal(n as nat),
    decreases n,
{
    if n >= 10 {
        append_decimal(text, n / 10);
    }
    text.append(digit_text(n % 10));
}

/// A call to the player: no body, and the access token as a bearer token.
pub open spec fn player_request(method: FetchMethod, url: Seq<char>, access_token: Seq<char>, empty_response: bool) -> RequestView {
    RequestView {
        url,
        method,
        body: Seq::empty(),
        headers: seq![("Authorization"@, "Bearer "@ + access_token)],
        empty_response,
    }
}

/// Where the request to start playback on a device goes.
pub open spec fn play_url(device_id: Seq<char>) -> Seq<char> {
    "https://api.spotify.com/v1/me/player/play"@ + "?device_id="@ + device_id
}

/// Where the request to pause a device goes.
pub open spec fn pause_url(device_id: Seq<char>) -> Seq<char> {
    "https://api.spotify.com/v1/me/player/pause"@ + "?device_id="@ + device_id
}

/// Where the request for the playback state goes.
pub open spec fn playback_url(device_id: Seq<char>) -> Seq<char> {
    "https://api.spotify.com/v1/me/player"@ + "?device_id="@ + device_id
}

/// Where the request to set the volume of a device goes.
pub open spec fn volume_url(device_id: Seq<char>, volume: u32) -> Seq<char> {
    "https://api.spotify.com/v1/me/player/volume?volume_percent="@ + decimal(volume as nat) + "&device_id="@
        + device_id
}

/// No request of this library names a header twice.
pub proof fn lemma_headers_are_distinct(
    method: FetchMethod,
    url: Seq<char>,
    access_token: Seq<char>,
    empty_response: bool,
    credential: Credential,
)
    ensures
        player_request(method, url, access_token, empty_response).headers_distinct(),
        credential.refresh_request().headers_distinct(),
{
    reveal_strlit("Content-Type");
    reveal_strlit("Authorization");
    assert("Content-Type"@.len() != "Authorization"@.len());
}

fn build_player_request(method: FetchMethod, url: String, access_token: &str, empty_response: bool) -> (request: FetchRequest)
    ensures
        request@ == player_request(method, url@, access_token@, empty_response),
        request@.headers_distinct(),
{
    let mut bearer = "Bearer ".to_owned();
    bearer.append(access_token);
    let mut headers: Vec<Header> = Vec::new();
    headers.push(Header { name: "Authorization".to_owned(), value: bearer });
    let request = FetchRequest { url, method, body: String::new(), headers, empty_response };
    assert(request@.headers == player_request(method, url@, access_token@, empty_response).headers);
    request
}

/// The credential state: the client's identity, the long-lived refresh token, and
/// the short-lived access token with the time at which it was issued.
pub struct Credential {
    pub client_id: Seq<char>,
    pub client_secret: Seq<char>,
    pub refresh_token: Seq<char>,
    pub access_token: Seq<char>,
    /// Time of the last successful exchange, in seconds; `None` before the first
    pub issued_at: Option<u64>,
    /// Whether a token exchange is in flight
    pub refreshing: bool,
}

/// What a caller that asks for a token is told.
pub enum AuthorizationView {
    Token(Seq<char>),
    Pending,
    Refresh(RequestView),
    Failed(AuthError),
}

impl Credential {
    /// Whether the access token may still be used at `now` (in seconds).
    pub open spec fn is_fresh(self, now: u64) -> bool {
        match self.issued_at {
            Some(issued) => now - issued <= ACCESS_TOKEN_LIFETIME,
            None => false,
        }
    }

    /// Whether the request for a token exchange can be built.
    pub open spec fn can_ask(self) -> bool {
        credentials_fit(self.client_id, self.client_secret)
    }

    /// The token exchange: a refresh-token grant with HTTP Basic authentication.
    pub open spec fn refresh_request(self) -> RequestView {
        RequestView {
            url: "https://accounts.spotify.com/api/token"@,
            method: FetchMethod::Post,
            body: refresh_body(self.refresh_token),
            headers: seq![
                ("Content-Type"@, "application/x-www-form-urlencoded;charset=UTF-8"@),
                ("Authorization"@, basic_authorization(self.client_id, self.client_secret)),
            ],
            empty_response: false,
        }
    }

    /// One request for a token at `now`: the state after it, and the answer.
    pub open spec fn authorize(self, now: u64) -> (Credential, AuthorizationView) {
        if self.is_fresh(now) {
            (self, AuthorizationView::Token(self.access_token))
        } else if self.refreshing {
            (self, AuthorizationView::Pending)
        } else if self.can_ask() {
            (Credential { refreshing: true, ..self }, AuthorizationView::Refresh(self.refresh_request()))
        } else {
            (self, AuthorizationView::Failed(AuthError::RefreshFailed))
        }
    }

    /// A run of requests for a token, at the given times and with no exchange
    /// reported in between: the state after the last, and the answers in order.
    pub open spec fn authorize_all(self, times: Seq<u64>) -> (Credential, Seq<AuthorizationView>)
        decreases times.len(),
    {
        if times.len() == 0 {
            (self, Seq::empty())
        } else {
            let (before, answers) = self.authorize_all(times.drop_last());
            let (after, answer) = before.authorize(times.last());
            (after, answers.push(answer))
        }
    }

    /// The state after a token exchange that succeeded at `now`.
    pub open spec fn refreshed(self, now: u64, access_token: Seq<char>, rotated: Option<Seq<char>>) -> Credential {
        Credential {
            access_token,
            issued_at: Some(now),
            refresh_token: match rotated {
                Some(token) => token,
                None => self.refresh_token,
            },
            refreshing: false,
            ..self
        }
    }

    /// The state after a token exchange that failed: the cached values stay.
    pub open spec fn refresh_failed(self) -> Credential {
        Credential { refreshing: false, ..self }
    }
}

/// What a caller that asks for a token is told.
#[derive(Debug)]
pub enum Authorization {
    /// The cached access token is fresh: use it, no call is made.
    Token(String),
    /// A token exchange is in flight: wait for its result, make no call.
    Pending,
    /// The cached token is stale: perform this exchange, then report how it ended.
    Refresh(FetchRequest),
    /// The cached token is stale and no exchange can be made.
    Failed(AuthError),
}

impl View for Authorization {
    type V = AuthorizationView;

    open spec fn view(&self) -> AuthorizationView {
        match self {
            Authorization::Token(token) => AuthorizationView::Token(token@),
            Authorization::Pending => AuthorizationView::Pending,
            Authorization::Refresh(request) => AuthorizationView::Refresh(request@),
            Authorization::Failed(error) => AuthorizationView::Failed(*error),
        }
    }
}

/// The text of an optional string.
pub open spec fn text_of(value: Option<String>) -> Option<Seq<char>> {
    match value {
        Some(text) => Some(text@),
        None => None,
    }
}

/// The credential cache of the remote API: owns the access token, the time it
/// was issued, and the refresh token.
#[derive(Debug)]
pub struct SpotifyApi {
    client_id: String,
    client_secret: String,
    access_token: String,
    refresh_token: String,
    access_token_timestamp: Option<u64>,
    refreshing: bool,
}

impl View for SpotifyApi {
    type V = Credential;

    closed spec fn view(&self) -> Credential {
        Credential {
            client_id: self.client_id@,
            client_secret: self.client_secret@,
            refresh_token: self.refresh_token@,
            access_token: self.access_token@,
            issued_at: self.access_token_timestamp,
            refreshing: self.refreshing,
        }
    }
}

impl SpotifyApi {
    /// A cache that holds no access token yet.
    pub fn new(client_id: String, client_secret: String, refresh_token: String) -> (api: SpotifyApi)
        ensures
            api@ == (Credential {
                client_id: client_id@,
                client_secret: client_secret@,
                refresh_token: refresh_token@,
                access_token: Seq::<char>::empty(),
                issued_at: None,
                refreshing: false,
            }),
    {
        SpotifyApi {
            client_id,
            client_secret,
            access_token: String::new(),
            refresh_token,
            access_token_timestamp: None,
            refreshing: false,
        }
    }

    /// The refresh token that the next exchange will present.
    pub fn refresh_token(&self) -> (token: &str)
        ensures
            token@ == self@.refresh_token,
    {
        self.refresh_token.as_str()
    }

    /// The cached access token; empty before the first exchange.
    pub fn access_token(&self) -> (token: &str)
        ensures
            token@ == self@.access_token,
    {
        self.access_token.as_str()
    }

    /// Whether a token exchange is in flight.
    pub fn is_refreshing(&self) -> (refreshing: bool)
        ensures
            refreshing == self@.refreshing,
    {
        self.refreshing
    }

    /// Whether the cached access token may still be used at `now` (in seconds).
    pub fn is_fresh(&self, now: u64) -> (fresh: bool)
        ensures
            fresh == self@.is_fresh(now),
    {
        match self.access_token_timestamp {
            Some(issued) => now <= issued || now - issued <= ACCESS_TOKEN_LIFETIME,
            None => false,
        }
    }

    /// The request to start playing music on a device, made with an access token
    /// that `authorize` handed out.
    pub fn play(access_token: &str, device_id: &str) -> (request: FetchRequest)
        ensures
            request@ == player_request(FetchMethod::Put, play_url(device_id@), access_token@, true),
            request@.headers_distinct(),
    {
        let mut url = "https://api.spotify.com/v1/me/player/play".to_owned();
        url.append("?device_id=");
        url.append(device_id);
        build_player_request(FetchMethod::Put, url, access_token, true)
    }

    /// The request to pause a device.
    pub fn pause(access_token: &str, device_id: &str) -> (request: FetchRequest)
        ensures
            request@ == player_request(FetchMethod::Put, pause_url(device_id@), access_token@, true),
            request@.headers_distinct(),
    {
        let mut url = "https://api.spotify.com/v1/me/player/pause".to_owned();
        url.append("?device_id=");
        url.append(device_id);
        build_player_request(FetchMethod::Put, url, access_token, true)
    }

    /// The request for the playback state, from which `playing_from` tells whether a
    /// device is playing.
    pub fn is_playing(access_token: &str, device_id: &str) -> (request: FetchRequest)
        ensures
            request@ == player_request(FetchMethod::Get, playback_url(device_id@), access_token@, false),
            request@.headers_distinct(),
    {
        let mut url = "https://api.spotify.com/v1/me/player".to_owned();
        url.append("?device_id=");
        url.append(device_id);
        build_player_request(FetchMethod::Get, url, access_token, false)
    }

    /// The request for the playback state, from which `volume_from` reads the volume of a device.
    pub fn get_volume(access_token: &str, device_id: &str) -> (request: FetchRequest)
        ensures
            request@ == player_request(FetchMethod::Get, playback_url(device_id@), access_token@, false),
            request@.headers_distinct(),
    {
        Self::is_playing(access_token, device_id)
    }

    /// The request to set the volume of a device, in percent.
    pub fn set_volume(access_token: &str, device_id: &str, volume: u32) -> (request: FetchRequest)
        ensures
            request@ == player_request(FetchMethod::Put, volume_url(device_id@, volume), access_token@, true),
            request@.headers_distinct(),
    {
        let mut url = "https://api.spotify.com/v1/me/player/volume?volume_percent=".to_owned();
        append_decimal(&mut url, volume);
        url.append("&device_id=");
        url.append(device_id);
        build_player_request(FetchMethod::Put, url, access_token, true)
    }

    /// The request for the available devices.
    pub fn get_devices(access_token: &str) -> (request: FetchRequest)
        ensures
            request@ == player_request(
                FetchMethod::Get,
                "https://api.spotify.com/v1/me/player/devices"@,
                access_token@,
                false,
            ),
            request@.headers_distinct(),
    {
        let url = "https://api.spotify.com/v1/me/player/devices".to_owned();
        build_player_request(FetchMethod::Get, url, access_token, false)
    }

    /// Whether a device is playing, as the playback state tells: it is where
    /// something plays and the active device is this one. Where the state could
    /// not be had, the device counts as not playing.
    pub fn playing_from(response: &Result<SpotifyPlayback, ApiError>, device_id: &str) -> (playing: bool)
        ensures
            playing == match response {
                Ok(playback) => playback.is_playing && playback.device.id@ == device_id@,
                Err(_) => false,
            },
    {
        match response {
            Ok(playback) => {
                let id = device_id.to_owned();
                playback.is_playing && playback.device.id == id
            },
            Err(_) => false,
        }
    }

    /// The volume of the active device, as the playback state tells. Where the
    /// state could not be had, it is `DEFAULT_VOLUME`.
    pub fn volume_from(response: &Result<SpotifyPlayback, ApiError>) -> (volume: u32)
        ensures
            volume == match response {
                Ok(playback) => playback.device.volume_percent,
                Err(_) => DEFAULT_VOLUME,
            },
    {
        match response {
            Ok(playback) => playback.device.volume_percent,
            Err(_) => DEFAULT_VOLUME,
        }
    }

    /// Ask for an access token at `now` (in seconds). A fresh cached token is
    /// returned at once. For a stale one, the first caller is handed the token
    /// exchange to perform; until its result is reported, every other caller is
    /// told to wait for it, so that only one exchange is in flight at a time.
    pub fn authorize(&mut self, now: u64) -> (answer: Authorization)
        ensures
            (final(self)@, answer@) == old(self)@.authorize(now),
            answer matches Authorization::Refresh(request) ==> request@.headers_distinct(),
    {
        if self.is_fresh(now) {
            return Authorization::Token(self.access_token.clone());
        }
        if self.refreshing {
            return Authorization::Pending;
        }
        match basic_authorization_header(self.client_id.as_str(), self.client_secret.as_str()) {
            Some(authorization) => {
                let mut body = "grant_type=refresh_token&refresh_token=".to_owned();
                body.append(self.refresh_token.as_str());
                let mut headers: Vec<Header> = Vec::new();
                headers.push(
                    Header {
                        name: "Content-Type".to_owned(),
                        value: "application/x-www-form-urlencoded;charset=UTF-8".to_owned(),
                    },
                );
                headers.push(Header { name: "Authorization".to_owned(), value: authorization });
                let request = FetchRequest {
                    url: "https://accounts.spotify.com/api/token".to_owned(),
                    method: FetchMethod::Post,
                    body,
                    headers,
                    empty_response: false,
                };
                assert(request@.headers == old(self)@.refresh_request().headers);
                proof {
                    lemma_headers_are_distinct(FetchMethod::Post, Seq::empty(), Seq::empty(), false, old(self)@);
                }
                self.refreshing = true;
                Authorization::Refresh(request)
            },
            None => Authorization::Failed(AuthError::RefreshFailed),
        }
    }

    /// Report how the token exchange ended at `now` (in seconds). A response that
    /// was read replaces the access token and, where it carries one, the refresh
    /// token: the rotation is handed out so that the new value can be persisted.
    /// A failed exchange leaves the cached values as they are. Either way no
    /// exchange is in flight afterwards.
    pub fn complete_refresh(&mut self, now: u64, response: Result<SpotifyAuthorization, ApiError>) -> (outcome: Result<
        TokenGrant,
        AuthError,
    >)
        ensures
            match response {
                Ok(granted) => {
                    &&& final(self)@ == old(self)@.refreshed(
                        now,
                        granted.access_token@,
                        text_of(granted.refresh_token),
                    )
                    &&& outcome matches Ok(grant)
                    &&& grant.access_token@ == granted.access_token@
                    &&& match granted.refresh_token {
                        Some(token) => grant.rotation matches Some(rotation)
                            && rotation.old_refresh_token@ == old(self)@.refresh_token
                            && rotation.new_refresh_token@ == token@,
                        None => grant.rotation.is_none(),
                    }
                },
                Err(_) => final(self)@ == old(self)@.refresh_failed() && outcome == Err::<
                    TokenGrant,
                    AuthError,
                >(AuthError::RefreshFailed),
            },
    {
        self.refreshing = false;
        match response {
            Ok(granted) => {
                self.access_token_timestamp = Some(now);
                self.access_token = granted.access_token.clone();
                let rotation = match granted.refresh_token {
                    Some(token) => {
                        let mut previous = token.clone();
                        std::mem::swap(&mut previous, &mut self.refresh_token);
                        Some(Rotation { old_refresh_token: previous, new_refresh_token: token })
                    },
                    None => None,
                };
                Ok(TokenGrant { access_token: granted.access_token, rotation })
            },
            Err(_) => Err(AuthError::RefreshFailed),
        }
    }
}

/// However many callers ask for a token within the lifetime of an access token that
/// an exchange brought at `issued`, each is handed that token and none a request to
/// perform: the state stays as the exchange left it.
pub proof fn lemma_fresh_token_is_reused(
    credential: Credential,
    issued: u64,
    access_token: Seq<char>,
    rotated: Option<Seq<char>>,
    times: Seq<u64>,
)
    requires
        forall|i: int| 0 <= i < times.len() ==> times[i] - issued <= ACCESS_TOKEN_LIFETIME,
    ensures
        ({
            let fresh = credential.refreshed(issued, access_token, rotated);
            let (after, answers) = fresh.authorize_all(times);
            &&& after == fresh
            &&& answers.len() == times.len()
            &&& forall|i: int|
                0 <= i < times.len() ==> answers[i] == AuthorizationView::Token(access_token)
        }),
    decreases times.len(),
{
    if times.len() > 0 {
        lemma_fresh_token_is_reused(credential, issued, access_token, rotated, times.drop_last());
        assert(times.last() - issued <= ACCESS_TOKEN_LIFETIME);
    }
}

/// Single flight: of any number of callers that find the access token stale while no
/// exchange is in flight, the first is handed the one exchange to perform and every
/// other is told to wait for its result. Where the credentials are too long to be
/// encoded, no caller is handed an exchange and each is told that it failed. Either
/// way at most one exchange is handed out.
pub proof fn lemma_single_flight(credential: Credential, times: Seq<u64>)
    requires
        !credential.refreshing,
        times.len() > 0,
        forall|i: int| 0 <= i < times.len() ==> !credential.is_fresh(times[i]),
    ensures
        ({
            let (after, answers) = credential.authorize_all(times);
            &&& answers.len() == times.len()
            &&& forall|i: int| 1 <= i < times.len() ==> !(answers[i] is Refresh)
            &&& credential.can_ask() ==> {
                &&& after == Credential { refreshing: true, ..credential }
                &&& answers[0] == AuthorizationView::Refresh(credential.refresh_request())
                &&& forall|i: int| 1 <= i < times.len() ==> answers[i] == AuthorizationView::Pending
            }
            &&& !credential.can_ask() ==> {
                &&& after == credential
                &&& forall|i: int|
                    0 <= i < times.len() ==> answers[i] == AuthorizationView::Failed(AuthError::RefreshFailed)
            }
        }),
    decreases times.len(),
{
    let front = times.drop_last();
    if front.len() > 0 {
        lemma_single_flight(credential, front);
        assert(!credential.is_fresh(times.last()));
    } else {
        assert(credential.authorize_all(front).0 == credential);
        assert(!credential.is_fresh(times[0]));
    }
}

/// A failed exchange is no obstacle to the next: whoever next finds the token stale
/// is handed the same exchange to perform, with no delay.
pub proof fn lemma_failed_exchange_is_retried(credential: Credential, now: u64)
    requires
        credential.can_ask(),
        !credential.is_fresh(now),
    ensures
        credential.refresh_failed().authorize(now) == (
            Credential { refreshing: true, ..credential },
            AuthorizationView::Refresh(credential.refresh_request()),
        ),
{
}

/// A rotated refresh token replaces the old one for every later use: the state holds
/// the new value, and the next token exchange presents it.
pub proof fn lemma_rotation_is_observed(
    credential: Credential,
    now: u64,
    access_token: Seq<char>,
    new_refresh_token: Seq<char>,
)
    ensures
        ({
            let after = credential.refreshed(now, access_token, Some(new_refresh_token));
            &&& after.refresh_token == new_refresh_token
            &&& after.refresh_request().body == refresh_body(new_refresh_token)
        }),
{
}

} // verus!
