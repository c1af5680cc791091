//! The messages exchanged with a media server's HTTP API, and the rules by
//! which its replies are read. Sending requests is left to the caller.

use vstd::prelude::*;

use crate::json::{describes_stream, get, json_text, parse_json, parse_stream_info, Json};
use crate::model::StreamInfo;
use crate::text::{chars_of, copy_str, decimal, is_blank, push_decimal, string_of, trim};

verus! {

/// Why a request to a media server failed: the HTTP status and the body.
pub struct UpstreamError {
    pub status: u16,
    pub body: String,
}

/// Playback addresses as a media server reports them.
pub struct PlayUrls {
    pub rtmp: String,
    pub rtsp: String,
    pub http_flv: Option<String>,
    pub hls: Option<String>,
    pub webrtc_test_page: String,
}

/// A media server's reply to a playback address query.
pub struct PlayUrlsResponse {
    pub stream_id: String,
    pub play_urls: PlayUrls,
}

/// Encoding settings for a transcode session; unset settings are left to
/// the media server.
pub struct TranscodeProfile {
    pub video_codec: Option<String>,
    pub video_bitrate: Option<String>,
    pub resolution: Option<String>,
    pub fps: Option<u32>,
    pub audio_codec: Option<String>,
    pub audio_bitrate: Option<String>,
    pub audio_sample_rate: Option<u32>,
}

impl Default for TranscodeProfile {
    fn default() -> (p: Self)
        ensures
            p.video_codec is None,
            p.video_bitrate is None,
            p.resolution is None,
            p.fps is None,
            p.audio_codec is None,
            p.audio_bitrate is None,
            p.audio_sample_rate is None,
    {
        TranscodeProfile {
            video_codec: None,
            video_bitrate: None,
            resolution: None,
            fps: None,
            audio_codec: None,
            audio_bitrate: None,
            audio_sample_rate: None,
        }
    }
}

/// A request to start transcoding one stream into another.
pub struct StartTranscodeRequest {
    pub source_stream_id: String,
    pub target_stream_id: String,
    pub profile: Option<TranscodeProfile>,
}

/// A request to stop transcoding a stream.
pub struct StopTranscodeRequest {
    pub source_stream_id: String,
    pub target_stream_id: Option<String>,
}

/// A transcode session as a media server reports it.
pub struct TranscodeSessionInfo {
    pub source_stream_id: String,
    pub target_stream_id: String,
    pub profile: TranscodeProfile,
    pub status: String,
    pub started_at: u64,
}

/// A media server's reply to a transcode request.
pub struct TranscodeResponse {
    pub transcode: TranscodeSessionInfo,
    pub message: String,
}

/// `path` with a leading `/`, added when it has none.
pub open spec fn normalized_path(path: Seq<char>) -> Seq<char> {
    if path.len() > 0 && path[0] == '/' {
        path
    } else {
        seq!['/'] + path
    }
}

/// `s` without its trailing `/` characters (`trim_end_matches('/')`).
pub open spec fn without_trailing_slashes(s: Seq<char>) -> Seq<char>
    decreases s.len(),
{
    if s.len() > 0 && s.last() == '/' {
        without_trailing_slashes(s.drop_last())
    } else {
        s
    }
}

/// `path`, made to start with `/`.
pub fn normalize_path(path: &str) -> (r: String)
    ensures
        r@ == normalized_path(path@),
{
    let v = chars_of(path);
    if v.len() > 0 && v[0] == '/' {
        copy_str(path)
    } else {
        let mut r = String::new();
        r.append("/");
        r.append(path);
        proof {
            reveal_strlit("/");
        }
        assert(r@ =~= seq!['/'] + path@);
        r
    }
}

/// The base URL of a media server's API: `api_url` without trailing `/`.
pub fn base_url_of(api_url: &str) -> (r: String)
    ensures
        r@ == without_trailing_slashes(api_url@),
{
    let v = chars_of(api_url);
    let mut j = v.len();
    assert(v@.take(j as int) == v@);
    while j > 0 && v[j - 1] == '/'
        invariant
            v@ == api_url@,
            j <= v@.len(),
            without_trailing_slashes(api_url@) == without_trailing_slashes(v@.take(j as int)),
        decreases j,
    {
        assert(v@.take(j as int).drop_last() == v@.take(j - 1));
        j = j - 1;
    }
    assert(v@.subrange(0, j as int) == v@.take(j as int));
    string_of(&v, 0, j)
}

/// The URL of `path` under the API at `base_url`.
pub fn request_url(base_url: &str, path: &str) -> (r: String)
    ensures
        r@ == base_url@ + normalized_path(path@),
{
    let mut r = copy_str(base_url);
    let p = normalize_path(path);
    r.append(p.as_str());
    r
}

/// Whether `status` is a success status (2xx).
pub open spec fn is_success(status: u16) -> bool {
    200 <= status <= 299
}

/// The status a reply is treated as having: the code itself when it is a
/// valid HTTP status (100 to 999), otherwise 502 Bad Gateway.
pub open spec fn effective_status(code: u16) -> u16 {
    if 100 <= code <= 999 {
        code
    } else {
        502
    }
}

/// What a request made of a media server yields, given the reply's status
/// code, its body text and the JSON value that body parses to, if any: an
/// error with the body for a status other than 2xx; otherwise an empty
/// object for a blank body, the parsed value, or the body as a JSON string
/// when it does not parse.
pub fn reply_outcome(code: u16, text: String, parsed: Option<Json>) -> (r: Result<(u16, Json), UpstreamError>)
    ensures
        !is_success(effective_status(code)) ==> (r matches Err(e) && e.status == effective_status(
            code,
        ) && e.body == text),
        is_success(effective_status(code)) ==> (r matches Ok((s, v)) && s == effective_status(code)
            && if trim(text@).len() == 0 {
            v matches Json::Object(f) && f@.len() == 0
        } else {
            match parsed {
                Some(p) => v == p,
                None => v == Json::Str(text),
            }
        }),
{
    let status = if 100 <= code && code <= 999 {
        code
    } else {
        502
    };
    if !(200 <= status && status <= 299) {
        return Err(UpstreamError { status, body: text });
    }
    if is_blank(text.as_str()) {
        return Ok((status, Json::empty_object()));
    }
    match parsed {
        Some(p) => Ok((status, p)),
        None => Ok((status, Json::Str(text))),
    }
}

/// What a request made of a media server yields, given the reply's status
/// code and body text (see `reply_outcome`; the body is read as JSON by
/// `parse_json`).
pub fn decode_reply(code: u16, text: String) -> (r: Result<(u16, Json), UpstreamError>)
    ensures
        !is_success(effective_status(code)) ==> (r matches Err(e) && e.status == effective_status(
            code,
        ) && e.body == text),
        is_success(effective_status(code)) ==> (r matches Ok((s, v)) && s == effective_status(code)
            && if trim(text@).len() == 0 {
            v matches Json::Object(f) && f@.len() == 0
        } else {
            match json_text(text@) {
                Some(p) => v == p,
                None => v == Json::Str(text),
            }
        }),
{
    let parsed = parse_json(text.as_str());
    reply_outcome(code, text, parsed)
}

/// The stream details in the outcome of a stream query: those of the reply
/// when the query succeeded, none when it failed.
pub fn stream_info_from(reply: &Result<(u16, Json), UpstreamError>) -> (r: Option<StreamInfo>)
    ensures
        match reply {
            Ok((status, v)) => if is_success(*status) {
                r matches Some(info) && describes_stream(info, *v)
            } else {
                r is None
            },
            Err(_) => r is None,
        },
{
    match reply {
        Ok((status, v)) => if 200 <= *status && *status <= 299 {
            Some(parse_stream_info(v))
        } else {
            None
        },
        Err(_) => None,
    }
}

/// The error for a media server that could not be reached: 502 with a
/// message naming its base URL and the cause.
pub fn unreachable_error(base_url: &str, cause: &str) -> (e: UpstreamError)
    ensures
        e.status == 502,
        e.body@ == "cannot reach media server at "@ + base_url@ + ": "@ + cause@,
{
    let mut body = String::new();
    body.append("cannot reach media server at ");
    body.append(base_url);
    body.append(": ");
    body.append(cause);
    UpstreamError { status: 502, body }
}

/// The error for a reply that could not be read as expected: 500 with the
/// message `what: cause`.
pub fn reply_error(what: &str, cause: &str) -> (e: UpstreamError)
    ensures
        e.status == 500,
        e.body@ == what@ + ": "@ + cause@,
{
    let mut body = copy_str(what);
    body.append(": ");
    body.append(cause);
    UpstreamError { status: 500, body }
}

/// The `sessions` member of a transcode session list reply, or a 500 error
/// when the reply has none.
pub fn sessions_of(reply: &Json) -> (r: Result<&Json, UpstreamError>)
    ensures
        match r {
            Ok(v) => get(*reply, "sessions"@) == Some(*v),
            Err(e) => get(*reply, "sessions"@) is None && e.status == 500 && e.body@
                == "missing sessions field in response"@,
        },
{
    match reply.get("sessions") {
        Some(v) => Ok(v),
        None => Err(
            UpstreamError { status: 500, body: copy_str("missing sessions field in response") },
        ),
    }
}

} // verus!

verus! {

/// A normalized path starts with `/`, and normalizing it again changes
/// nothing.
pub proof fn law_normalized_path(path: Seq<char>)
    ensures
        normalized_path(path).len() > 0,
        normalized_path(path)[0] == '/',
        normalized_path(normalized_path(path)) == normalized_path(path),
{
}

/// A base URL has no trailing `/`, and trimming it again changes nothing.
pub proof fn law_base_url(url: Seq<char>)
    ensures
        without_trailing_slashes(url).len() == 0 || without_trailing_slashes(url).last() != '/',
        without_trailing_slashes(without_trailing_slashes(url)) == without_trailing_slashes(url),
    decreases url.len(),
{
    if url.len() > 0 && url.last() == '/' {
        law_base_url(url.drop_last());
    }
}

} // verus!

verus! {

/// The reason phrase `http` gives for the status code `code`
/// (`StatusCode::canonical_reason`), or none when it has none.
pub uninterp spec fn reason_phrase(code: u16) -> Option<Seq<char>>;

/// `http::StatusCode::from_u16(code)` followed by `canonical_reason`: the
/// reason phrase of a status code, none for a code without one. `from_u16`
/// refuses codes outside 100 to 999, which then have no phrase. The phrase
/// of each code is left to the name.
#[verifier::external_body]
fn canonical_reason(code: u16) -> (r: Option<&'static str>)
    ensures
        match r {
            Some(p) => reason_phrase(code) == Some(p@),
            None => reason_phrase(code) is None,
        },
        !(100 <= code <= 999) ==> r is None,
{
    match axum::http::StatusCode::from_u16(code) {
        Ok(s) => s.canonical_reason(),
        Err(_) => None,
    }
}

/// A status code as `http` displays it: the number, a space and the reason
/// phrase, or `<unknown status code>` when there is none.
pub open spec fn status_text(code: u16) -> Seq<char> {
    decimal(code as nat) + " "@ + match reason_phrase(code) {
        Some(p) => p,
        None => "<unknown status code>"@,
    }
}

/// The text of an upstream error: `upstream HTTP <status>: <body>`.
pub open spec fn error_text(e: UpstreamError) -> Seq<char> {
    "upstream HTTP "@ + status_text(e.status) + ": "@ + e.body@
}

impl UpstreamError {
    /// The text of this error (see `error_text`).
    pub fn message(&self) -> (m: String)
        ensures
            m@ == error_text(*self),
    {
        let mut m = String::new();
        m.append("upstream HTTP ");
        push_decimal(&mut m, self.status as u64);
        m.append(" ");
        match canonical_reason(self.status) {
            Some(p) => m.append(p),
            None => m.append("<unknown status code>"),
        }
        m.append(": ");
        m.append(self.body.as_str());
        m
    }
}

/// The error for a play address reply that could not be read.
pub fn play_urls_parse_error(cause: &str) -> (e: UpstreamError)
    ensures
        e.status == 500,
        e.body@ == "failed to parse play urls response"@ + ": "@ + cause@,
{
    reply_error("failed to parse play urls response", cause)
}

/// The error for a transcode request that could not be written.
pub fn request_write_error(cause: &str) -> (e: UpstreamError)
    ensures
        e.status == 500,
        e.body@ == "failed to serialize request"@ + ": "@ + cause@,
{
    reply_error("failed to serialize request", cause)
}

/// The error for a transcode reply that could not be read.
pub fn transcode_parse_error(cause: &str) -> (e: UpstreamError)
    ensures
        e.status == 500,
        e.body@ == "failed to parse transcode response"@ + ": "@ + cause@,
{
    reply_error("failed to parse transcode response", cause)
}

/// The error for a session list that could not be read.
pub fn sessions_parse_error(cause: &str) -> (e: UpstreamError)
    ensures
        e.status == 500,
        e.body@ == "failed to parse sessions"@ + ": "@ + cause@,
{
    reply_error("failed to parse sessions", cause)
}

fn path_with(prefix: &str, id: &str) -> (r: String)
    ensures
        r@ == prefix@ + id@,
{
    let mut r = copy_str(prefix);
    r.append(id);
    r
}

/// The API path of one stream.
pub fn stream_path(stream_id: &str) -> (r: String)
    ensures
        r@ == "/api/stream/"@ + stream_id@,
{
    path_with("/api/stream/", stream_id)
}

/// The API path of a stream's play addresses.
pub fn play_urls_path(stream_id: &str) -> (r: String)
    ensures
        r@ == "/api/play-urls/"@ + stream_id@,
{
    path_with("/api/play-urls/", stream_id)
}

} // verus!
