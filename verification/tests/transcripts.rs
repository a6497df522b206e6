use pinepods_pages::transcript::{
    ad_is_skipped, ad_segment_indices, ai_transcript_complete, ai_transcript_entry, ai_transcript_running,
    begin_transcribe, finish_transcribe, is_html_transcript, is_markup, mobile_transcript_controls, modal_transcript_text,
    modal_transcript_text_with, parse_transcript_cues, parse_transcript_cues_with, preferred_transcript,
    selected_source_index, timestamp_parts, transcript_sources, transcript_tab_action, transcript_tab_visible,
    voice_tag_pattern, TranscribeState, Transcript, TranscriptAction,
};

fn transcript(url: &str, mime: &str, language: Option<&str>) -> Transcript {
    Transcript {
        url: url.to_string(),
        mime_type: mime.to_string(),
        language: language.map(|l| l.to_string()),
        rel: None,
    }
}

#[test]
fn preferred_transcript_takes_vtt_then_srt_then_first() {
    let ts = vec![
        transcript("a.html", "text/html", None),
        transcript("b.srt", "application/srt", None),
        transcript("c.vtt", "text/vtt", None),
        transcript("d.vtt", "text/vtt", None),
    ];
    assert_eq!(preferred_transcript(&ts), Some(2));
    let ts = vec![transcript("a.html", "text/html", None), transcript("b.srt", "application/srt", None)];
    assert_eq!(preferred_transcript(&ts), Some(1));
    let ts = vec![transcript("a.html", "text/html", None), transcript("b.json", "application/json", None)];
    assert_eq!(preferred_transcript(&ts), Some(0));
    assert_eq!(preferred_transcript(&Vec::new()), None);
}

#[test]
fn ai_transcript_entry_points_at_internal_address() {
    let t = ai_transcript_entry(77);
    assert_eq!(t.url, "pinepods-internal://transcript/77");
    assert_eq!(t.mime_type, "application/srt");
    assert_eq!(t.language.as_deref(), Some("AI"));
    assert_eq!(t.rel.as_deref(), Some("ai"));
    assert_eq!(ai_transcript_entry(-3).url, "pinepods-internal://transcript/-3");
}

const VTT: &str = "WEBVTT\n\n1\n00:00:01.000 --> 00:00:04.000\n<v Alice>Hello there</v>\n  Second line  \n\n2\n00:00:05.000 --> 00:00:06.500 align:start\n<v Bob>Bye\n\n00:00:07.000 --> 00:00:08.000\n\n";

#[test]
fn cues_are_read_with_voice_tags_removed() {
    let cues = parse_transcript_cues(VTT).expect("the voice tag expression compiles");
    assert_eq!(cues.len(), 2);
    assert_eq!(cues[0].start, "00:00:01.000 ");
    assert_eq!(cues[0].end, "00:00:04.000");
    assert_eq!(cues[0].text, "Hello there Second line");
    assert_eq!(cues[1].start, "00:00:05.000 ");
    assert_eq!(cues[1].end, "00:00:06.500");
    assert_eq!(cues[1].text, "Bye");
}

#[test]
fn every_cue_has_text() {
    let cues = parse_transcript_cues(VTT).unwrap();
    assert!(cues.iter().all(|c| !c.text.is_empty()));
    let srt = "1\n00:00:00,000 --> 00:00:02,000\n\n2\n00:00:02,000 --> 00:00:03,000\n </v> \nreal text\n";
    let cues = parse_transcript_cues(srt).unwrap();
    assert_eq!(cues.len(), 1);
    assert_eq!(cues[0].text, "real text");
}

#[test]
fn text_without_timings_has_no_cues() {
    assert!(parse_transcript_cues("Just a paragraph.\nAnother one.").unwrap().is_empty());
    assert!(parse_transcript_cues("").unwrap().is_empty());
}

#[test]
fn cue_text_stops_at_next_timing_line() {
    let p = voice_tag_pattern().unwrap();
    let content = "00:01 --> 00:02\nfirst\n00:02 --> 00:03\nsecond\n";
    let cues = parse_transcript_cues_with(content, &p);
    assert_eq!(cues.len(), 2);
    assert_eq!(cues[0].text, "first");
    assert_eq!(cues[0].start, "00:01 ");
    assert_eq!(cues[1].text, "second");
}

#[test]
fn timestamp_parts_splits_two_or_three_fields() {
    let t = timestamp_parts(" 00:01:02,500 ").unwrap();
    assert_eq!(t.hours.as_deref(), Some("00"));
    assert_eq!(t.minutes, "01");
    assert_eq!(t.seconds, "02.500");
    let t = timestamp_parts("01:02.5").unwrap();
    assert_eq!(t.hours, None);
    assert_eq!(t.minutes, "01");
    assert_eq!(t.seconds, "02.5");
    assert!(timestamp_parts("12").is_none());
    assert!(timestamp_parts("1:2:3:4").is_none());
    assert!(timestamp_parts("").is_none());
}

#[test]
fn markup_needs_both_brackets() {
    assert!(is_markup("<p>hi</p>"));
    assert!(!is_markup("a < b"));
    assert!(!is_markup("plain"));
}

#[test]
fn modal_text_keeps_only_spoken_lines() {
    let text = modal_transcript_text(VTT).unwrap();
    assert_eq!(text, "Hello there</v>\nSecond line\nBye");
    let srt = "1\n00:00:00,000 --> 00:00:02,000\n<v  Carol>Welcome\n\n2\n00:00:02,000 --> 00:00:03,000\n<v >\n";
    assert_eq!(modal_transcript_text(srt).unwrap(), "Welcome\n>");
}

#[test]
fn modal_text_with_the_voice_pattern_twice() {
    let p = voice_tag_pattern().unwrap();
    assert_eq!(modal_transcript_text_with("12\nWEBVTT x\n<v A>hi\n", &p, &p), "hi");
}

#[test]
fn ai_status_words() {
    assert!(ai_transcript_complete(&Some("complete".to_string())));
    assert!(!ai_transcript_complete(&Some("running".to_string())));
    assert!(!ai_transcript_complete(&None));
    assert!(ai_transcript_running(&Some("running".to_string())));
    assert!(ai_transcript_running(&Some("pending".to_string())));
    assert!(!ai_transcript_running(&Some("failed".to_string())));
    assert!(!ai_transcript_running(&None));
}

#[test]
fn accepted_transcription_shows_progress() {
    let mut s = TranscribeState { submitting: false, source: None, status: Some("complete".to_string()) };
    begin_transcribe(&mut s);
    assert!(s.submitting);
    assert_eq!(s.status.as_deref(), Some("complete"));
    finish_transcribe(&mut s, true);
    assert!(!s.submitting);
    assert_eq!(s.source.as_deref(), Some("generated"));
    assert_eq!(s.status.as_deref(), Some("running"));
    assert!(ai_transcript_running(&s.status));
    let complete = ai_transcript_complete(&s.status);
    assert_eq!(transcript_tab_action(true, true, s.submitting, complete), TranscriptAction::Transcribing);
}

#[test]
fn refused_transcription_keeps_the_transcript() {
    let mut s = TranscribeState { submitting: false, source: None, status: None };
    begin_transcribe(&mut s);
    finish_transcribe(&mut s, false);
    assert!(!s.submitting);
    assert_eq!(s.source, None);
    assert_eq!(s.status, None);
}

#[test]
fn transcript_sources_list_feed_then_ai() {
    let feed = vec![transcript("a.vtt", "text/vtt", Some("en")), transcript("b.srt", "application/srt", Some("")), transcript("c.srt", "application/srt", None)];
    let sources = transcript_sources(&feed, "Built-in", "AI", true, 9);
    assert_eq!(sources.len(), 4);
    assert_eq!(sources[0].label, "en");
    assert_eq!(sources[1].label, "Built-in");
    assert_eq!(sources[2].label, "Built-in");
    assert_eq!(sources[0].transcript, feed[0]);
    assert_eq!(sources[3].label, "AI");
    assert_eq!(sources[3].transcript.url, "pinepods-internal://transcript/9");
    assert_eq!(transcript_sources(&feed, "Built-in", "AI", false, 9).len(), 3);
}

#[test]
fn selected_source_is_clamped_to_the_last() {
    assert_eq!(selected_source_index(0, 3), 0);
    assert_eq!(selected_source_index(2, 3), 2);
    assert_eq!(selected_source_index(7, 3), 2);
    assert_eq!(selected_source_index(5, 0), 0);
}

#[test]
fn tab_action_by_state() {
    assert_eq!(transcript_tab_action(false, true, true, true), TranscriptAction::Hidden);
    assert_eq!(transcript_tab_action(true, true, false, false), TranscriptAction::Transcribing);
    assert_eq!(transcript_tab_action(true, false, true, true), TranscriptAction::Starting);
    assert_eq!(transcript_tab_action(true, false, false, true), TranscriptAction::Regenerate);
    assert_eq!(transcript_tab_action(true, false, false, false), TranscriptAction::Generate);
}

#[test]
fn tab_visible_unless_nothing_to_show() {
    assert!(!transcript_tab_visible(0, false));
    assert!(transcript_tab_visible(0, true));
    assert!(transcript_tab_visible(2, false));
}

#[test]
fn mobile_controls() {
    let c = mobile_transcript_controls(false, false, false, false);
    assert!(!c.visible && !c.view_button);
    assert_eq!(c.action, TranscriptAction::Hidden);
    let c = mobile_transcript_controls(false, false, false, true);
    assert!(c.visible && c.view_button);
    assert_eq!(c.action, TranscriptAction::Hidden);
    let c = mobile_transcript_controls(true, true, false, false);
    assert!(c.visible && !c.view_button);
    assert_eq!(c.action, TranscriptAction::Transcribing);
    let c = mobile_transcript_controls(true, false, false, true);
    assert_eq!(c.action, TranscriptAction::Regenerate);
}

#[test]
fn ads_are_the_segments_of_kind_ad() {
    let kinds = vec!["intro".to_string(), "ad".to_string(), "content".to_string(), "ad".to_string()];
    assert_eq!(ad_segment_indices(&kinds), vec![1, 3]);
    assert!(ad_is_skipped(&Some("active".to_string())));
    assert!(ad_is_skipped(&Some("confirmed".to_string())));
    assert!(!ad_is_skipped(&Some("rejected".to_string())));
    assert!(!ad_is_skipped(&None));
}

#[test]
fn html_transcripts_are_read_from_markup() {
    assert!(is_html_transcript("text/html"));
    assert!(!is_html_transcript("text/vtt"));
    assert!(!is_html_transcript("text/HTML"));
}
