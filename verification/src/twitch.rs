use vstd::prelude::*;
use std::collections::HashMap;
use vstd::string::*;

use crate::decimal::{int_decimal, nat_digits, push_decimal, push_signed_decimal};
use crate::text::push_char;

verus! {

broadcast use vstd::string::group_string_axioms;

// ---------------------------------------------------------------------------
// Errors of the Twitch API
// ---------------------------------------------------------------------------

#[verifier::external_type_specification]
#[verifier::external_body]
pub struct ExReqwestError(reqwest::Error);

/// The body of an error reply of the Twitch API.
#[derive(Debug)]
pub struct TwitchErrorResponse {
    pub status: i32,
    pub error: Option<String>,
    pub message: Option<String>,
}

/// What can go wrong when talking to Twitch.
#[derive(Debug)]
pub enum TwitchError {
    ReqwestError(reqwest::Error),
    MissingClientId,
    MissingClientSecret,
    MissingAccessToken,
    InvalidParameters(String),
    // Twitch related
    BadRequest(String),
    Unauthorized(String),
    Forbidden(String),
    NotFound(String),
    Conflict(String),
    TooManyRequests(String),
    UnknownError(String),
}

/// The text of an optional string, empty where there is none.
pub open spec fn text_or_empty(s: Option<String>) -> Seq<char> {
    match s {
        Some(t) => t@,
        None => Seq::empty(),
    }
}

/// The message that an error reply is turned into: its status, error and
/// message, separated by single spaces.
pub open spec fn error_reply_text(e: TwitchErrorResponse) -> Seq<char> {
    int_decimal(e.status as int) + seq![' '] + text_or_empty(e.error) + seq![' '] + text_or_empty(
        e.message,
    )
}

/// `r` is the error that the error reply `e` stands for: its status picks the
/// kind (400, 401, 403, 404, 409 and 429 their own, any other an unknown
/// error) and the message is [`error_reply_text`].
pub open spec fn is_reply_error(e: TwitchErrorResponse, r: TwitchError) -> bool {
    match r {
        TwitchError::BadRequest(m) => e.status == 400 && m@ == error_reply_text(e),
        TwitchError::Unauthorized(m) => e.status == 401 && m@ == error_reply_text(e),
        TwitchError::Forbidden(m) => e.status == 403 && m@ == error_reply_text(e),
        TwitchError::NotFound(m) => e.status == 404 && m@ == error_reply_text(e),
        TwitchError::Conflict(m) => e.status == 409 && m@ == error_reply_text(e),
        TwitchError::TooManyRequests(m) => e.status == 429 && m@ == error_reply_text(e),
        TwitchError::UnknownError(m) => {
            &&& e.status != 400 && e.status != 401 && e.status != 403
            &&& e.status != 404 && e.status != 409 && e.status != 429
            &&& m@ == error_reply_text(e)
        },
        _ => false,
    }
}

/// Turns an error reply of the Twitch API into a [`TwitchError`].
pub fn unwrap_twitch_error(error: TwitchErrorResponse) -> (r: TwitchError)
    ensures
        is_reply_error(error, r),
{
    let ghost expected = error_reply_text(error);
    let mut formatted = String::new();
    push_signed_decimal(&mut formatted, error.status);
    push_char(&mut formatted, ' ');
    match &error.error {
        Some(e) => formatted.append(e.as_str()),
        None => {},
    }
    push_char(&mut formatted, ' ');
    match &error.message {
        Some(m) => formatted.append(m.as_str()),
        None => {},
    }
    assert(formatted@ =~= expected);
    match error.status {
        400 => TwitchError::BadRequest(formatted),
        401 => TwitchError::Unauthorized(formatted),
        403 => TwitchError::Forbidden(formatted),
        404 => TwitchError::NotFound(formatted),
        409 => TwitchError::Conflict(formatted),
        429 => TwitchError::TooManyRequests(formatted),
        _ => TwitchError::UnknownError(formatted),
    }
}

/// A reply of the Twitch API as far as it could be read: the body of a
/// successful reply, the body of an error reply, or a failure of the HTTP
/// client (in sending, or in reading either body).
pub enum TwitchReply<T> {
    Success(T),
    Failure(TwitchErrorResponse),
    ClientError(reqwest::Error),
}

/// What a call of the Twitch API gives once its reply was read: the body of
/// a successful reply, the error that an error reply stands for, or the
/// failure of the HTTP client.
pub fn unwrap_twitch_reply<T>(reply: TwitchReply<T>) -> (r: Result<T, TwitchError>)
    ensures
        reply matches TwitchReply::Success(t) ==> (r matches Ok(x) && x == t),
        reply matches TwitchReply::Failure(e) ==> (r matches Err(err) && is_reply_error(e, err)),
        reply matches TwitchReply::ClientError(e) ==> (r matches Err(TwitchError::ReqwestError(x))
            && x == e),
{
    match reply {
        TwitchReply::Success(t) => Ok(t),
        TwitchReply::Failure(e) => Err(unwrap_twitch_error(e)),
        TwitchReply::ClientError(e) => Err(TwitchError::ReqwestError(e)),
    }
}

/// The text of a `reqwest::Error`, as its `Display` writes it.
#[verifier::external_body]
fn reqwest_error_text(e: &reqwest::Error) -> String {
    e.to_string()
}

/// The text that an error that did not come from the HTTP client reads as.
pub open spec fn twitch_error_text(e: TwitchError) -> Seq<char> {
    match e {
        TwitchError::ReqwestError(_) => Seq::empty(),
        TwitchError::MissingClientId => "Error: Missing Twitch client id"@,
        TwitchError::MissingClientSecret => "Error: Missing Twitch client secret"@,
        TwitchError::MissingAccessToken => "Error: Missing Twitch access token"@,
        TwitchError::InvalidParameters(m) => "Error: Invalid parameters "@ + m@,
        TwitchError::BadRequest(m) => m@,
        TwitchError::Unauthorized(m) => m@,
        TwitchError::Forbidden(m) => m@,
        TwitchError::NotFound(m) => m@,
        TwitchError::Conflict(m) => m@,
        TwitchError::TooManyRequests(m) => m@,
        TwitchError::UnknownError(m) => m@,
    }
}

impl TwitchError {
    /// The text of the error. An error of the HTTP client reads as the client
    /// writes it; every other error reads as [`twitch_error_text`].
    pub fn to_string(&self) -> (s: String)
        ensures
            !(self is ReqwestError) ==> s@ == twitch_error_text(*self),
    {
        match self {
            TwitchError::ReqwestError(e) => reqwest_error_text(e),
            TwitchError::MissingClientId => String::from_str("Error: Missing Twitch client id"),
            TwitchError::MissingClientSecret => String::from_str(
                "Error: Missing Twitch client secret",
            ),
            TwitchError::MissingAccessToken => String::from_str(
                "Error: Missing Twitch access token",
            ),
            TwitchError::InvalidParameters(message) => {
                let mut s = String::from_str("Error: Invalid parameters ");
                s.append(message.as_str());
                s
            },
            TwitchError::BadRequest(message) => message.clone(),
            TwitchError::Unauthorized(message) => message.clone(),
            TwitchError::Forbidden(message) => message.clone(),
            TwitchError::NotFound(message) => message.clone(),
            TwitchError::Conflict(message) => message.clone(),
            TwitchError::TooManyRequests(message) => message.clone(),
            TwitchError::UnknownError(message) => message.clone(),
        }
    }
}

// ---------------------------------------------------------------------------
// Query parameters
// ---------------------------------------------------------------------------

/// A value that can stand in a query string.
pub trait QueryParam {
    /// The text of the value in a query string.
    spec fn param_text(&self) -> Seq<char>;

    /// Writes the value as it stands in a query string.
    fn to_query_param(&self) -> (r: String)
        ensures
            r@ == self.param_text(),
    ;
}

impl<'a> QueryParam for &'a str {
    open spec fn param_text(&self) -> Seq<char> {
        (**self)@
    }

    fn to_query_param(&self) -> (r: String) {
        String::from_str(*self)
    }
}

impl QueryParam for String {
    open spec fn param_text(&self) -> Seq<char> {
        self@
    }

    fn to_query_param(&self) -> (r: String) {
        self.clone()
    }
}

impl QueryParam for u8 {
    open spec fn param_text(&self) -> Seq<char> {
        nat_digits(*self as nat)
    }

    fn to_query_param(&self) -> (r: String) {
        let mut s = String::new();
        push_decimal(&mut s, *self as u64);
        assert(s@ =~= nat_digits(*self as nat));
        s
    }
}

impl QueryParam for u16 {
    open spec fn param_text(&self) -> Seq<char> {
        nat_digits(*self as nat)
    }

    fn to_query_param(&self) -> (r: String) {
        let mut s = String::new();
        push_decimal(&mut s, *self as u64);
        assert(s@ =~= nat_digits(*self as nat));
        s
    }
}

impl QueryParam for u32 {
    open spec fn param_text(&self) -> Seq<char> {
        nat_digits(*self as nat)
    }

    fn to_query_param(&self) -> (r: String) {
        let mut s = String::new();
        push_decimal(&mut s, *self as u64);
        assert(s@ =~= nat_digits(*self as nat));
        s
    }
}

impl QueryParam for u64 {
    open spec fn param_text(&self) -> Seq<char> {
        nat_digits(*self as nat)
    }

    fn to_query_param(&self) -> (r: String) {
        let mut s = String::new();
        push_decimal(&mut s, *self);
        assert(s@ =~= nat_digits(*self as nat));
        s
    }
}

/// `parts` joined with `sep` between each two neighbours.
pub open spec fn join(parts: Seq<Seq<char>>, sep: Seq<char>) -> Seq<char>
    decreases parts.len(),
{
    if parts.len() == 0 {
        Seq::empty()
    } else if parts.len() == 1 {
        parts[0]
    } else {
        join(parts.drop_last(), sep) + sep + parts.last()
    }
}

/// The query texts of `items`, in order.
pub open spec fn param_texts<S: QueryParam>(items: Seq<S>) -> Seq<Seq<char>> {
    items.map_values(|x: S| x.param_text())
}

/// Joins the query texts of `items` with `seperator`, as in
/// `build_query_params(["mads", "matilde"], "&and=") == "mads&and=matilde"`.
pub fn build_query_params<S: QueryParam>(items: Vec<S>, seperator: &str) -> (r: String)
    ensures
        r@ == join(param_texts(items@), seperator@),
{
    let mut r = String::new();
    let mut i: usize = 0;
    while i < items.len()
        invariant
            i <= items.len(),
            r@ == join(param_texts(items@.take(i as int)), seperator@),
        decreases items.len() - i,
    {
        let ghost prev = param_texts(items@.take(i as int));
        let p = items[i].to_query_param();
        if i > 0 {
            r.append(seperator);
        }
        r.append(p.as_str());
        assert(param_texts(items@.take(i + 1)).drop_last() =~= prev);
        assert(param_texts(items@.take(i + 1)).last() == items@[i as int].param_text());
        if i == 0 {
            assert(param_texts(items@.take(1)) =~= seq![items@[0].param_text()]);
        }
        i = i + 1;
    }
    assert(items@.take(items.len() as int) =~= items@);
    r
}

// ---------------------------------------------------------------------------
// Replies and requests
// ---------------------------------------------------------------------------

/// The reply to a request for an app access token.
pub struct GetTwitchAccessTokenResponse {
    pub access_token: String,
    pub expires_in: u64,
}

/// A video, as the Twitch `videos` endpoint describes it.
pub struct TwitchGetVideosData {
    /// vod_id
    pub id: String,
    pub stream_id: String,
    pub user_id: String,
    pub user_login: String,
    pub user_name: String,
    pub title: String,
    pub description: String,
    pub created_at: String,
    pub published_at: String,
    pub url: String,
    pub thumbnail_url: String,
    pub viewable: String,
    pub view_count: u32,
    pub language: String,
    /// The kind of video (`type` in the reply).
    pub video_type: String,
    /// "3h10m58s",
    pub duration: String,
    pub muted_segments: Option<Vec<HashMap<String, i32>>>,
}

/// The reply of the Twitch `videos` endpoint.
pub struct TwitchGetVideosResponse {
    pub data: Vec<TwitchGetVideosData>,
}

/// The URL that asks Twitch for an app access token with the given client
/// credentials.
pub open spec fn token_request_url(client_id: Seq<char>, client_secret: Seq<char>) -> Seq<char> {
    "https://id.twitch.tv/oauth2/token?client_id="@ + client_id + "&client_secret="@
        + client_secret + "&grant_type=client_credentials&state=def"@
}

/// Checks the client credentials and builds the URL of the token request:
/// an empty client id gives `MissingClientId`, else an empty secret gives
/// `MissingClientSecret`, else the URL.
pub fn authentication_request_url(client_id: &str, client_secret: &str) -> (r: Result<
    String,
    TwitchError,
>)
    ensures
        client_id@.len() == 0 ==> r matches Err(TwitchError::MissingClientId),
        client_id@.len() != 0 && client_secret@.len() == 0 ==> r matches Err(
            TwitchError::MissingClientSecret,
        ),
        client_id@.len() != 0 && client_secret@.len() != 0 ==> (r matches Ok(url) && url@
            == token_request_url(client_id@, client_secret@)),
{
    if client_id.is_empty() {
        return Err(TwitchError::MissingClientId);
    }
    if client_secret.is_empty() {
        return Err(TwitchError::MissingClientSecret);
    }
    let mut url = String::from_str("https://id.twitch.tv/oauth2/token?client_id=");
    url.append(client_id);
    url.append("&client_secret=");
    url.append(client_secret);
    url.append("&grant_type=client_credentials&state=def");
    Ok(url)
}

/// The URL of the twenty latest archived videos of a user.
pub open spec fn videos_url(user_id: Seq<char>) -> Seq<char> {
    "https://api.twitch.tv/helix/videos?first=20&type=archive&user_id="@ + user_id
}

/// Builds [`videos_url`].
pub fn build_videos_url(user_id: &str) -> (r: String)
    ensures
        r@ == videos_url(user_id@),
{
    let mut url = String::from_str("https://api.twitch.tv/helix/videos?first=20&type=archive&user_id=");
    url.append(user_id);
    url
}

/// The value of the `Authorization` header for an access token.
pub open spec fn bearer_value(access_token: Seq<char>) -> Seq<char> {
    "Bearer "@ + access_token
}

/// Builds [`bearer_value`].
pub fn bearer_header_value(access_token: &str) -> (r: String)
    ensures
        r@ == bearer_value(access_token@),
{
    let mut v = String::from_str("Bearer ");
    v.append(access_token);
    v
}

} // verus!
