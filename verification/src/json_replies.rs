//! JSON the pages read and write: the stored login state, the transcript request sent
//! through the server, and the server's reply to it.

use vstd::prelude::*;

use crate::episode_page::shareable_page_url;
use crate::podcast_page::rss_base_url;
use crate::text::{append_chars, chars_of, opt_view, string_from_chars};

verus! {

// ---------------------------------------------------------------- the stored login state

/// What `serde_json` reads out of the stored login state: `None` when the text is not JSON
/// (`serde_json::from_str::<Value>`), else the text at `auth_details.server_name`
/// (`Value::get` twice, then `Value::as_str`), `None` when a member is missing or is not of
/// that kind.
pub uninterp spec fn auth_server_name(auth_state: Seq<char>) -> Option<Seq<char>>;

/// Reads `auth_details.server_name` out of the stored login state with `serde_json`; the
/// JSON grammar is not restated here, the outcome is named `auth_server_name`.
#[verifier::external_body]
fn read_auth_server_name(auth_state: &str) -> (r: Option<String>)
    ensures
        opt_view(r) == auth_server_name(auth_state@),
{
    let state: serde_json::Value = serde_json::from_str(auth_state).ok()?;
    state.get("auth_details")?.get("server_name")?.as_str().map(str::to_owned)
}

/// The server the login state names, if a login state is stored and names one.
pub fn stored_server_name(auth_state: &Option<String>) -> (r: Option<String>)
    ensures
        opt_view(r) == match auth_state {
            Some(s) => auth_server_name(s@),
            None => None,
        },
{
    match auth_state {
        Some(s) => read_auth_server_name(s.as_str()),
        None => None,
    }
}

/// The RSS base address of the page, from its address (when it could be read) and the
/// stored login state (when there is one).
pub fn page_rss_base(current_href: &Option<String>, auth_state: &Option<String>) -> (r: String)
    ensures
        r@ == crate::podcast_page::rss_base(
            match *current_href {
                Some(h) => h@,
                None => "Unable to retrieve URL"@,
            },
            match auth_state {
                Some(s) => auth_server_name(s@),
                None => None,
            },
        ),
{
    let server = stored_server_name(auth_state);
    rss_base_url(current_href, &server)
}

/// The address of the page to share, from its address and the stored login state.
pub fn page_share_url(current_href: &Option<String>, auth_state: &Option<String>) -> (r: String)
    ensures
        ({
            let href = match *current_href {
                Some(h) => h@,
                None => "Unable to retrieve URL"@,
            };
            match (match auth_state {
                Some(s) => auth_server_name(s@),
                None => None,
            }) {
                Some(server) => r@ == crate::text::replaced(href, "http://tauri.localhost"@, server),
                None => r@ == href,
            }
        }),
{
    let server = stored_server_name(auth_state);
    shareable_page_url(current_href, &server)
}

// ---------------------------------------------------------------- fetching a transcript

/// The JSON text `{"url":…}` that `serde_json` writes for an object with the one member
/// `url` (`Value::Object`, shown with `Display`).
pub uninterp spec fn url_request_json(url: Seq<char>) -> Seq<char>;

/// Writes the request body `{"url":…}` with `serde_json`; its string escaping is not
/// restated here, the outcome is named `url_request_json`.
#[verifier::external_body]
fn url_request_body(url: &str) -> (r: String)
    ensures
        r@ == url_request_json(url@),
{
    let mut members = serde_json::Map::new();
    members.insert("url".to_owned(), serde_json::Value::String(url.to_owned()));
    serde_json::Value::Object(members).to_string()
}

/// The request that has the server fetch a transcript: the endpoint
/// `{server}/api/data/fetch_transcript` and the body naming the transcript's address.
pub fn transcript_fetch_request(server_name: &str, transcript_url: &str) -> (r: (String, String))
    ensures
        r.0@ == server_name@ + "/api/data/fetch_transcript"@,
        r.1@ == url_request_json(transcript_url@),
{
    let mut endpoint = chars_of(server_name);
    append_chars(&mut endpoint, &chars_of("/api/data/fetch_transcript"));
    (string_from_chars(&endpoint), url_request_body(transcript_url))
}

/// What `serde_json` reads out of a server reply: `None` when the text is not JSON
/// (`serde_json::from_str::<Value>`); else its `success` member as a bool (`Value::get`,
/// `Value::as_bool`) and its `content` and `error` members as text (`Value::get`,
/// `Value::as_str`), each `None` when missing or of another kind.
pub uninterp spec fn reply_fields(reply: Seq<char>) -> Option<(Option<bool>, Option<Seq<char>>, Option<Seq<char>>)>;

/// Reads the `success`, `content` and `error` members of a server reply with `serde_json`;
/// the outcome is named `reply_fields`.
#[verifier::external_body]
fn read_reply_fields(reply: &str) -> (r: Option<(Option<bool>, Option<String>, Option<String>)>)
    ensures
        match r {
            Some((success, content, error)) => reply_fields(reply@) == Some(
                (success, opt_view(content), opt_view(error)),
            ),
            None => reply_fields(reply@) is None,
        },
{
    let json: serde_json::Value = serde_json::from_str(reply).ok()?;
    let success = json.get("success").and_then(serde_json::Value::as_bool);
    let content = json.get("content").and_then(serde_json::Value::as_str).map(str::to_owned);
    let error = json.get("error").and_then(serde_json::Value::as_str).map(str::to_owned);
    Some((success, content, error))
}

/// What the transcript views make of the server's reply.
#[derive(Clone, Debug, PartialEq, Eq)]
pub enum TranscriptReply {
    /// The transcript text (empty when the reply carries none).
    Content(String),
    /// The message shown for a refusal: `Backend error: …`.
    Refused(String),
    /// The reply is not JSON.
    NotJson,
}

/// The reply's meaning: the content when `success` is `true`, else the server's error
/// (`Unknown error` when it gives none).
pub open spec fn reply_meaning(fields: Option<(Option<bool>, Option<Seq<char>>, Option<Seq<char>>)>) -> Option<(bool, Seq<char>)> {
    match fields {
        None => None,
        Some((success, content, error)) => if success == Some(true) {
            Some((true, match content { Some(c) => c, None => Seq::<char>::empty() }))
        } else {
            Some((false, "Backend error: "@ + match error { Some(e) => e, None => "Unknown error"@ }))
        },
    }
}

/// Reads the server's reply to a transcript request.
pub fn read_transcript_reply(reply: &str) -> (r: TranscriptReply)
    ensures
        match reply_meaning(reply_fields(reply@)) {
            None => r == TranscriptReply::NotJson,
            Some((true, text)) => r matches TranscriptReply::Content(c) && c@ == text,
            Some((false, text)) => r matches TranscriptReply::Refused(m) && m@ == text,
        },
{
    match read_reply_fields(reply) {
        None => TranscriptReply::NotJson,
        Some((success, content, error)) => {
            let ok = match success {
                Some(b) => b,
                None => false,
            };
            if ok {
                match content {
                    Some(c) => TranscriptReply::Content(c),
                    None => TranscriptReply::Content(String::new()),
                }
            } else {
                let mut msg = chars_of("Backend error: ");
                match error {
                    Some(e) => append_chars(&mut msg, &chars_of(e.as_str())),
                    None => append_chars(&mut msg, &chars_of("Unknown error")),
                }
                TranscriptReply::Refused(string_from_chars(&msg))
            }
        },
    }
}

} // verus!
