use pinepods_pages::json_replies::{
    page_rss_base, page_share_url, read_transcript_reply, stored_server_name, transcript_fetch_request,
    TranscriptReply,
};

fn some(s: &str) -> Option<String> {
    Some(s.to_string())
}

#[test]
fn server_name_from_the_login_state() {
    let state = some(r#"{"auth_details":{"server_name":"https://pods.example","api_key":"k"}}"#);
    assert_eq!(stored_server_name(&state), some("https://pods.example"));
    assert_eq!(stored_server_name(&some(r#"{"auth_details":{}}"#)), None);
    assert_eq!(stored_server_name(&some(r#"{"auth_details":{"server_name":7}}"#)), None);
    assert_eq!(stored_server_name(&some("not json")), None);
    assert_eq!(stored_server_name(&None), None);
}

#[test]
fn rss_base_prefers_the_stored_server() {
    let href = some("http://tauri.localhost/podcast?x=1");
    let state = some(r#"{"auth_details":{"server_name":"https://pods.example"}}"#);
    assert_eq!(page_rss_base(&href, &state), "https://pods.example/rss");
    assert_eq!(page_rss_base(&href, &None), "http://tauri.localhost/rss");
    assert_eq!(page_rss_base(&href, &some("{}")), "http://tauri.localhost/rss");
}

#[test]
fn share_url_swaps_in_the_stored_server() {
    let href = some("http://tauri.localhost/episode?episode_id=3");
    let state = some(r#"{"auth_details":{"server_name":"https://pods.example"}}"#);
    assert_eq!(page_share_url(&href, &state), "https://pods.example/episode?episode_id=3");
    assert_eq!(page_share_url(&href, &None), "http://tauri.localhost/episode?episode_id=3");
}

#[test]
fn transcript_request() {
    let (endpoint, body) = transcript_fetch_request("https://srv", "https://feed.example/t.vtt");
    assert_eq!(endpoint, "https://srv/api/data/fetch_transcript");
    assert_eq!(body, r#"{"url":"https://feed.example/t.vtt"}"#);
    let (_, body) = transcript_fetch_request("s", "a\"b");
    assert_eq!(body, r#"{"url":"a\"b"}"#);
}

#[test]
fn transcript_replies() {
    assert_eq!(read_transcript_reply(r#"{"success":true,"content":"WEBVTT\n"}"#), TranscriptReply::Content("WEBVTT\n".to_string()));
    assert_eq!(read_transcript_reply(r#"{"success":true}"#), TranscriptReply::Content(String::new()));
    assert_eq!(read_transcript_reply(r#"{"success":false,"error":"Not found"}"#), TranscriptReply::Refused("Backend error: Not found".to_string()));
    assert_eq!(read_transcript_reply(r#"{"success":"yes","content":"x"}"#), TranscriptReply::Refused("Backend error: Unknown error".to_string()));
    assert_eq!(read_transcript_reply("<html>"), TranscriptReply::NotJson);
    assert_eq!(read_transcript_reply("[1,2]"), TranscriptReply::Refused("Backend error: Unknown error".to_string()));
}
