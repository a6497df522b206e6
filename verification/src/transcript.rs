//! Transcripts of an episode: which feed transcript to show, how SRT/VTT text is read into
//! timed cues, the plain-text view of the transcript modal, and the AI transcript controls.

use vstd::prelude::*;

use crate::text::{
    append_chars, chars_of, contains_chars, contains_seq, copy_range, decimal,
    decimal_chars, find_first, find_seq, first_word, first_word_chars, has_char, join_chars, joined,
    lemma_find_seq, lines_chars, lines_of, occurs_at, parse_i32_chars, parse_i32_spec, replace_chars,
    replaced, split_at_char, split_chars, starts_with_chars, starts_with_seq, str_eq,
    string_from_chars, trim_chars, trimmed, views,
};

verus! {

/// A transcript offered by a podcast feed (or the stored AI transcript).
#[derive(Clone, Debug, PartialEq, Eq)]
pub struct Transcript {
    pub url: String,
    pub mime_type: String,
    pub language: Option<String>,
    pub rel: Option<String>,
}

fn copy_opt_string(o: &Option<String>) -> (r: Option<String>)
    ensures
        r == *o,
{
    match o {
        Some(s) => Some(s.clone()),
        None => None,
    }
}

/// An exact copy of a transcript entry.
pub fn copy_transcript(t: &Transcript) -> (r: Transcript)
    ensures
        r == *t,
{
    Transcript {
        url: t.url.clone(),
        mime_type: t.mime_type.clone(),
        language: copy_opt_string(&t.language),
        rel: copy_opt_string(&t.rel),
    }
}

// ---------------------------------------------------------------- choosing a transcript

/// Index of the first transcript at or after `i` whose MIME type is `mime`.
pub open spec fn first_with_mime(ts: Seq<Transcript>, mime: Seq<char>, i: int) -> Option<int>
    decreases ts.len() - i,
{
    if i < 0 || i >= ts.len() {
        None
    } else if ts[i].mime_type@ == mime {
        Some(i)
    } else {
        first_with_mime(ts, mime, i + 1)
    }
}

/// The transcript to load: the first WebVTT one, else the first SRT one, else the first.
pub open spec fn preferred_index(ts: Seq<Transcript>) -> Option<int> {
    if ts.len() == 0 {
        None
    } else {
        match first_with_mime(ts, "text/vtt"@, 0) {
            Some(i) => Some(i),
            None => match first_with_mime(ts, "application/srt"@, 0) {
                Some(i) => Some(i),
                None => Some(0),
            },
        }
    }
}

proof fn lemma_first_with_mime(ts: Seq<Transcript>, mime: Seq<char>, i: int)
    requires
        0 <= i <= ts.len(),
    ensures
        match first_with_mime(ts, mime, i) {
            Some(j) => i <= j < ts.len() && ts[j].mime_type@ == mime && forall|k: int|
                i <= k < j ==> ts[k].mime_type@ != mime,
            None => forall|k: int| i <= k < ts.len() ==> ts[k].mime_type@ != mime,
        },
    decreases ts.len() - i,
{
    if i < ts.len() && ts[i].mime_type@ != mime {
        lemma_first_with_mime(ts, mime, i + 1);
    }
}

/// The transcript shown is the first WebVTT one when there is one; otherwise the first SRT
/// one when there is one; otherwise the first transcript; and none without transcripts.
pub proof fn lemma_preferred_transcript(ts: Seq<Transcript>)
    ensures
        ts.len() == 0 <==> preferred_index(ts) is None,
        preferred_index(ts) matches Some(i) ==> 0 <= i < ts.len(),
        (exists|k: int| 0 <= k < ts.len() && ts[k].mime_type@ == "text/vtt"@) ==> (preferred_index(ts) matches Some(
            i,
        ) && ts[i].mime_type@ == "text/vtt"@ && forall|k: int| 0 <= k < i ==> ts[k].mime_type@ != "text/vtt"@),
        (forall|k: int| 0 <= k < ts.len() ==> ts[k].mime_type@ != "text/vtt"@) && (exists|k: int|
            0 <= k < ts.len() && ts[k].mime_type@ == "application/srt"@) ==> (preferred_index(ts) matches Some(i)
            && ts[i].mime_type@ == "application/srt"@ && forall|k: int|
            0 <= k < i ==> ts[k].mime_type@ != "application/srt"@),
        ts.len() > 0 && (forall|k: int|
            0 <= k < ts.len() ==> ts[k].mime_type@ != "text/vtt"@ && ts[k].mime_type@ != "application/srt"@)
            ==> preferred_index(ts) == Some(0int),
{
    lemma_first_with_mime(ts, "text/vtt"@, 0);
    lemma_first_with_mime(ts, "application/srt"@, 0);
}

/// The AI transcript's status is never both complete and running.
pub proof fn lemma_status_complete_or_running(status: Option<String>)
    ensures
        !(status_is_complete(status) && status_is_running(status)),
{
    reveal_strlit("complete");
    reveal_strlit("running");
    reveal_strlit("pending");
    assert("complete"@.len() != "running"@.len());
    assert("complete"@.len() != "pending"@.len());
}

/// A feed transcript is labelled by its language when it names one, else by the built-in
/// label.
pub proof fn lemma_source_label(t: Transcript, builtin: Seq<char>)
    ensures
        (t.language matches Some(l) && l@.len() > 0) ==> source_label(t, builtin) == t.language->0@,
        !(t.language matches Some(l) && l@.len() > 0) ==> source_label(t, builtin) == builtin,
{
}

fn find_mime(ts: &Vec<Transcript>, mime: &str) -> (r: Option<usize>)
    ensures
        match r {
            Some(i) => first_with_mime(ts@, mime@, 0) == Some(i as int),
            None => first_with_mime(ts@, mime@, 0) is None,
        },
{
    let mut i: usize = 0;
    while i < ts.len()
        invariant
            i <= ts.len(),
            first_with_mime(ts@, mime@, 0) == first_with_mime(ts@, mime@, i as int),
        decreases ts.len() - i,
    {
        if str_eq(ts[i].mime_type.as_str(), mime) {
            return Some(i);
        }
        i = i + 1;
    }
    None
}

/// Which of the episode's transcripts is fetched and shown.
pub fn preferred_transcript(transcripts: &Vec<Transcript>) -> (r: Option<usize>)
    ensures
        match r {
            Some(i) => preferred_index(transcripts@) == Some(i as int),
            None => preferred_index(transcripts@) is None,
        },
{
    if transcripts.len() == 0 {
        return None;
    }
    match find_mime(transcripts, "text/vtt") {
        Some(i) => Some(i),
        None => match find_mime(transcripts, "application/srt") {
            Some(i) => Some(i),
            None => Some(0),
        },
    }
}

/// The entry through which a stored AI transcript is fetched like a feed transcript
/// (the server resolves this address to SRT).
pub open spec fn is_ai_transcript_entry(t: Transcript, episode_id: int) -> bool {
    &&& t.url@ == "pinepods-internal://transcript/"@ + decimal(episode_id)
    &&& t.mime_type@ == "application/srt"@
    &&& t.language matches Some(l) && l@ == "AI"@
    &&& t.rel matches Some(r) && r@ == "ai"@
}

/// The transcript entry of the stored AI transcript of `episode_id`.
pub fn ai_transcript_entry(episode_id: i32) -> (r: Transcript)
    ensures
        is_ai_transcript_entry(r, episode_id as int),
{
    let mut url = chars_of("pinepods-internal://transcript/");
    let id = decimal_chars(episode_id as i64);
    append_chars(&mut url, &id);
    Transcript {
        url: string_from_chars(&url),
        mime_type: "application/srt".to_owned(),
        language: Some("AI".to_owned()),
        rel: Some("ai".to_owned()),
    }
}


// ---------------------------------------------------------------- regular expressions

/// `regex::Regex`, held opaque: what a compiled expression does is said through the trusted
/// functions below.
#[verifier::external_type_specification]
#[verifier::external_body]
pub struct ExRegex(regex::Regex);

/// Whether `regex::Regex::new` accepts the pattern `source`.
pub uninterp spec fn regex_compiles(source: Seq<char>) -> bool;

/// What `Regex::replace_all(haystack, replacement)` returns for the regex compiled from
/// `source`: every non-overlapping leftmost-first match replaced by `replacement`.
pub uninterp spec fn regex_replaced(
    source: Seq<char>,
    haystack: Seq<char>,
    replacement: Seq<char>,
) -> Seq<char>;

/// A compiled regular expression together with the pattern it was compiled from.
/// The only way to build one is `compile_pattern`, so `compiled` always comes from `source`.
pub struct Pattern {
    source: String,
    compiled: regex::Regex,
}

impl Pattern {
    /// The pattern text this regular expression was compiled from.
    pub closed spec fn source_text(&self) -> Seq<char> {
        self.source@
    }
}

/// `regex::Regex::new`: compiles `source`; `None` exactly when the crate refuses the pattern.
/// The syntax it accepts is not restated here: the outcome is named `regex_compiles`.
#[verifier::external_body]
pub(crate) fn compile_pattern(source: &str) -> (r: Option<Pattern>)
    ensures
        r is Some <==> regex_compiles(source@),
        r matches Some(p) ==> p.source_text() == source@,
{
    match regex::Regex::new(source) {
        Ok(compiled) => Some(Pattern { source: source.to_owned(), compiled }),
        Err(_) => None,
    }
}

/// `regex::Regex::replace_all`: its result depends only on the pattern, the haystack and the
/// replacement, and is named `regex_replaced`; the matching semantics are not restated here.
#[verifier::external_body]
pub(crate) fn regex_replace_all(p: &Pattern, haystack: &str, replacement: &str) -> (r: String)
    ensures
        r@ == regex_replaced(p.source_text(), haystack@, replacement@),
{
    p.compiled.replace_all(haystack, replacement).into_owned()
}

/// The regular expression that finds WebVTT voice tags such as `<v Alice>`.
pub open spec fn voice_tag_source() -> Seq<char> {
    seq!['<', 'v', '\\', 's', '+', '[', '^', '>', ']', '*', '>']
}

fn voice_tag_text() -> (r: Vec<char>)
    ensures
        r@ == voice_tag_source(),
{
    let mut r: Vec<char> = Vec::new();
    r.push('<');
    r.push('v');
    r.push('\\');
    r.push('s');
    r.push('+');
    r.push('[');
    r.push('^');
    r.push('>');
    r.push(']');
    r.push('*');
    r.push('>');
    assert(r@ =~= voice_tag_source());
    r
}

/// Compiles the voice tag expression used when reading cues.
pub fn voice_tag_pattern() -> (r: Option<Pattern>)
    ensures
        r is Some <==> regex_compiles(voice_tag_source()),
        r matches Some(p) ==> p.source_text() == voice_tag_source(),
{
    let src = string_from_chars(&voice_tag_text());
    compile_pattern(src.as_str())
}


// ---------------------------------------------------------------- timed cues

/// The cue timing separator `-->`.
pub open spec fn arrow() -> Seq<char> {
    seq!['-', '-', '>']
}

fn arrow_chars() -> (r: Vec<char>)
    ensures
        r@ == arrow(),
{
    let mut r: Vec<char> = Vec::new();
    r.push('-');
    r.push('-');
    r.push('>');
    assert(r@ =~= arrow());
    r
}

/// The closing voice tag `</v>`.
pub open spec fn closing_voice_tag() -> Seq<char> {
    seq!['<', '/', 'v', '>']
}

fn closing_voice_tag_chars() -> (r: Vec<char>)
    ensures
        r@ == closing_voice_tag(),
{
    let mut r: Vec<char> = Vec::new();
    r.push('<');
    r.push('/');
    r.push('v');
    r.push('>');
    assert(r@ =~= closing_voice_tag());
    r
}

/// One line of cue text: voice tags (matches of `voice`) and `</v>` removed, then trimmed.
pub open spec fn cue_text_line(line: Seq<char>, voice: Seq<char>) -> Seq<char> {
    trimmed(replaced(regex_replaced(voice, line, seq![]), closing_voice_tag(), seq![]))
}

/// A line that ends the text of a cue: blank, or the timing line of the next cue.
pub open spec fn ends_cue_text(line: Seq<char>) -> bool {
    trimmed(line).len() == 0 || contains_seq(line, arrow())
}

/// The non-empty cleaned text lines that follow a timing line, up to the line that ends them.
pub open spec fn cue_text_lines(ls: Seq<Seq<char>>, voice: Seq<char>) -> Seq<Seq<char>>
    decreases ls.len(),
{
    if ls.len() == 0 || ends_cue_text(ls[0]) {
        seq![]
    } else {
        let t = cue_text_line(ls[0], voice);
        let rest = cue_text_lines(ls.drop_first(), voice);
        if t.len() == 0 {
            rest
        } else {
            seq![t] + rest
        }
    }
}

/// The cues of a transcript's lines, each as (start time text, end time text, cue text):
/// every line holding `-->` starts a cue whose start time is what precedes the first `-->`,
/// whose end time is the first word after it, and whose text is its cleaned text lines
/// joined by spaces; cues without text are left out.
pub open spec fn cues_in(ls: Seq<Seq<char>>, voice: Seq<char>) -> Seq<(Seq<char>, Seq<char>, Seq<char>)>
    decreases ls.len(),
{
    if ls.len() == 0 {
        seq![]
    } else {
        let rest = cues_in(ls.drop_first(), voice);
        match find_seq(ls[0], arrow()) {
            None => rest,
            Some(idx) => {
                let text = joined(cue_text_lines(ls.drop_first(), voice), seq![' ']);
                if text.len() == 0 {
                    rest
                } else {
                    seq![(ls[0].take(idx), first_word(ls[0].skip(idx + 3)), text)] + rest
                }
            },
        }
    }
}

/// Every cue read from a transcript has text: cues whose text lines are all empty are
/// dropped.
pub proof fn lemma_cues_have_text(ls: Seq<Seq<char>>, voice: Seq<char>)
    ensures
        forall|i: int| 0 <= i < cues_in(ls, voice).len() ==> (#[trigger] cues_in(ls, voice)[i]).2.len() > 0,
    decreases ls.len(),
{
    if ls.len() > 0 {
        let rest = cues_in(ls.drop_first(), voice);
        lemma_cues_have_text(ls.drop_first(), voice);
        assert forall|i: int| 0 <= i < cues_in(ls, voice).len() implies (#[trigger] cues_in(ls, voice)[i]).2.len() > 0 by {
            match find_seq(ls[0], arrow()) {
                None => {
                    assert(cues_in(ls, voice) == rest);
                },
                Some(idx) => {
                    let text = joined(cue_text_lines(ls.drop_first(), voice), seq![' ']);
                    if text.len() == 0 {
                        assert(cues_in(ls, voice) == rest);
                    } else {
                        if i > 0 {
                            assert(cues_in(ls, voice)[i] == rest[i - 1]);
                        }
                    }
                },
            }
        }
    }
}

/// Text in which no line holds `-->` has no cues, so the views fall back to plain
/// paragraphs for it.
pub proof fn lemma_no_timings_no_cues(ls: Seq<Seq<char>>, voice: Seq<char>)
    requires
        forall|i: int| 0 <= i < ls.len() ==> !contains_seq(#[trigger] ls[i], arrow()),
    ensures
        cues_in(ls, voice).len() == 0,
    decreases ls.len(),
{
    if ls.len() > 0 {
        lemma_find_seq(ls[0], arrow(), 0, None);
        assert forall|i: int| 0 <= i < ls.drop_first().len() implies !contains_seq(
            #[trigger] ls.drop_first()[i],
            arrow(),
        ) by {
            assert(ls.drop_first()[i] == ls[i + 1]);
        }
        lemma_no_timings_no_cues(ls.drop_first(), voice);
    }
}

/// A timed cue as read from SRT/VTT text, its times still as written.
#[derive(Clone, Debug, PartialEq, Eq)]
pub struct RawCue {
    pub start: String,
    pub end: String,
    pub text: String,
}

/// A cue as its three texts.
pub open spec fn cue_view(c: RawCue) -> (Seq<char>, Seq<char>, Seq<char>) {
    (c.start@, c.end@, c.text@)
}

fn cue_text_line_exec(line: &Vec<char>, voice: &Pattern) -> (r: Vec<char>)
    ensures
        r@ == cue_text_line(line@, voice.source_text()),
{
    let s = string_from_chars(line);
    let nothing = String::new();
    let stripped = regex_replace_all(voice, s.as_str(), nothing.as_str());
    let cs = chars_of(stripped.as_str());
    let no_close = replace_chars(&cs, &closing_voice_tag_chars(), &Vec::new());
    trim_chars(&no_close)
}

fn collect_cue_text(lines: &Vec<Vec<char>>, from: usize, voice: &Pattern) -> (parts: Vec<Vec<char>>)
    requires
        from <= lines.len(),
    ensures
        views(parts@) == cue_text_lines(views(lines@).skip(from as int), voice.source_text()),
{
    let ghost lv = views(lines@);
    let ghost v = voice.source_text();
    let sep = arrow_chars();
    let mut parts: Vec<Vec<char>> = Vec::new();
    let mut k: usize = from;
    while k < lines.len()
        invariant
            from <= k <= lines.len(),
            lv == views(lines@),
            v == voice.source_text(),
            sep@ == arrow(),
            cue_text_lines(lv.skip(from as int), v) == views(parts@) + cue_text_lines(lv.skip(k as int), v),
        decreases lines.len() - k,
    {
        let ghost rest = lv.skip(k as int);
        assert(rest[0] == lines@[k as int]@);
        assert(rest.drop_first() =~= lv.skip(k + 1));
        let t = trim_chars(&lines[k]);
        if t.len() == 0 || contains_chars(&lines[k], &sep) {
            assert(cue_text_lines(rest, v) =~= Seq::<Seq<char>>::empty());
            assert(views(parts@) =~= views(parts@) + Seq::<Seq<char>>::empty());
            return parts;
        }
        let c = cue_text_line_exec(&lines[k], voice);
        let ghost before = views(parts@);
        if c.len() > 0 {
            parts.push(c);
            assert(views(parts@) =~= before + seq![c@]);
        }
        k = k + 1;
    }
    assert(lv.skip(k as int) =~= Seq::<Seq<char>>::empty());
    assert(views(parts@) =~= views(parts@) + Seq::<Seq<char>>::empty());
    parts
}

/// Reads the timed cues of SRT/VTT text, with `voice` the compiled voice tag expression.
pub fn parse_transcript_cues_with(content: &str, voice: &Pattern) -> (cues: Vec<RawCue>)
    ensures
        cues@.map_values(|c: RawCue| cue_view(c)) == cues_in(lines_of(content@), voice.source_text()),
{
    let lines = lines_chars(&chars_of(content));
    let ghost lv = views(lines@);
    let ghost v = voice.source_text();
    let sep = arrow_chars();
    let mut space: Vec<char> = Vec::new();
    space.push(' ');
    assert(space@ =~= seq![' ']);
    let mut out: Vec<RawCue> = Vec::new();
    let mut i: usize = 0;
    assert(lv.skip(0) =~= lv);
    while i < lines.len()
        invariant
            i <= lines.len(),
            lv == views(lines@),
            lv == lines_of(content@),
            v == voice.source_text(),
            sep@ == arrow(),
            space@ == seq![' '],
            cues_in(lv, v) == out@.map_values(|c: RawCue| cue_view(c)) + cues_in(lv.skip(i as int), v),
        decreases lines.len() - i,
    {
        let ghost rest = lv.skip(i as int);
        let ghost before = out@.map_values(|c: RawCue| cue_view(c));
        assert(rest[0] == lines@[i as int]@);
        assert(rest.drop_first() =~= lv.skip(i + 1));
        match find_first(&lines[i], &sep) {
            None => {},
            Some(idx) => {
                let parts = collect_cue_text(&lines, i + 1, voice);
                let text = join_chars(&parts, &space);
                if text.len() > 0 {
                    let line = &lines[i];
                    assert(sep@.len() == 3);
                    assert(occurs_at(line@, sep@, idx as int));
                    let start = copy_range(line, 0, idx);
                    assert(start@ =~= line@.take(idx as int));
                    assert(idx + 3 <= line@.len());
                    let tail = copy_range(line, idx + 3, line.len());
                    assert(tail@ =~= line@.skip(idx + 3));
                    let end = first_word_chars(&tail);
                    let cue = RawCue {
                        start: string_from_chars(&start),
                        end: string_from_chars(&end),
                        text: string_from_chars(&text),
                    };
                    out.push(cue);
                    assert(out@.map_values(|c: RawCue| cue_view(c)) =~= before + seq![cue_view(cue)]);
                }
            },
        }
        i = i + 1;
    }
    assert(lv.skip(i as int) =~= Seq::<Seq<char>>::empty());
    assert(out@.map_values(|c: RawCue| cue_view(c)) =~= out@.map_values(|c: RawCue| cue_view(c)) + Seq::<(Seq<char>, Seq<char>, Seq<char>)>::empty());
    out
}

/// `parse_transcript_cues_with` under the voice tag expression `<v\s+[^>]*>`;
/// `None` only if the regex crate refuses that expression.
pub fn parse_transcript_cues(content: &str) -> (r: Option<Vec<RawCue>>)
    ensures
        r is Some <==> regex_compiles(voice_tag_source()),
        r matches Some(cues) ==> cues@.map_values(|c: RawCue| cue_view(c)) == cues_in(
            lines_of(content@),
            voice_tag_source(),
        ),
{
    match voice_tag_pattern() {
        Some(p) => Some(parse_transcript_cues_with(content, &p)),
        None => None,
    }
}


// ---------------------------------------------------------------- cue times

/// The pieces of a cue time such as `00:01:02,500` or `01:02.5`: the text trimmed, decimal
/// commas turned into points, then split at colons.
pub open spec fn timestamp_pieces(s: Seq<char>) -> Seq<Seq<char>> {
    split_at_char(replaced(trimmed(s), seq![','], seq!['.']), ':')
}

/// The fields of a cue time, each still as text: `hours:minutes:seconds` or
/// `minutes:seconds`. The leading field is trimmed; seconds may carry a fraction.
#[derive(Clone, Debug, PartialEq, Eq)]
pub struct TimestampParts {
    pub hours: Option<String>,
    pub minutes: String,
    pub seconds: String,
}

/// Splits a cue time into its fields; `None` unless it has two or three of them.
pub fn timestamp_parts(s: &str) -> (r: Option<TimestampParts>)
    ensures
        ({
            let p = timestamp_pieces(s@);
            &&& p.len() == 3 ==> (r matches Some(t) && t.hours matches Some(h) && h@ == trimmed(p[0])
                && t.minutes@ == p[1] && t.seconds@ == p[2])
            &&& p.len() == 2 ==> (r matches Some(t) && t.hours is None && t.minutes@ == trimmed(p[0])
                && t.seconds@ == p[1])
            &&& (p.len() != 2 && p.len() != 3) ==> r is None
        }),
{
    let cs = chars_of(s);
    let t = trim_chars(&cs);
    let mut comma: Vec<char> = Vec::new();
    comma.push(',');
    let mut point: Vec<char> = Vec::new();
    point.push('.');
    assert(comma@ =~= seq![',']);
    assert(point@ =~= seq!['.']);
    let dotted = replace_chars(&t, &comma, &point);
    let pieces = split_chars(&dotted, ':');
    assert(views(pieces@) == timestamp_pieces(s@));
    if pieces.len() == 3 {
        let h = trim_chars(&pieces[0]);
        Some(
            TimestampParts {
                hours: Some(string_from_chars(&h)),
                minutes: string_from_chars(&pieces[1]),
                seconds: string_from_chars(&pieces[2]),
            },
        )
    } else if pieces.len() == 2 {
        let m = trim_chars(&pieces[0]);
        Some(
            TimestampParts {
                hours: None,
                minutes: string_from_chars(&m),
                seconds: string_from_chars(&pieces[1]),
            },
        )
    } else {
        None
    }
}

/// Whether a fetched transcript is HTML, whose text the page takes from the markup; other
/// transcripts (SRT, VTT, plain text) are shown from their own text.
pub fn is_html_transcript(mime_type: &str) -> (r: bool)
    ensures
        r == (mime_type@ == "text/html"@),
{
    str_eq(mime_type, "text/html")
}

// ---------------------------------------------------------------- the transcript modal

/// Whether transcript content is shown as markup rather than as text lines.
pub open spec fn looks_like_markup(content: Seq<char>) -> bool {
    content.contains('<') && content.contains('>')
}

/// Whether transcript content holds both `<` and `>`.
pub fn is_markup(content: &str) -> (r: bool)
    ensures
        r == looks_like_markup(content@),
{
    let cs = chars_of(content);
    has_char(&cs, '<') && has_char(&cs, '>')
}

/// Content is shown as markup exactly when it holds an opening `<` somewhere and a closing
/// `>` somewhere: text without `<` (such as `>>` speaker marks) or without `>` is shown as
/// text lines.
pub proof fn lemma_markup_needs_both_brackets(content: Seq<char>)
    ensures
        looks_like_markup(content) <==> (exists|i: int| 0 <= i < content.len() && content[i] == '<') && (exists|
            j: int,
        | 0 <= j < content.len() && content[j] == '>'),
        (forall|i: int| 0 <= i < content.len() ==> content[i] != '<') ==> !looks_like_markup(content),
{
}

/// The `WEBVTT` file header.
pub open spec fn vtt_header() -> Seq<char> {
    seq!['W', 'E', 'B', 'V', 'T', 'T']
}

/// The voice tags the modal strips first, `<v\s+[^>]+>`.
pub open spec fn full_voice_tag_source() -> Seq<char> {
    seq!['<', 'v', '\\', 's', '+', '[', '^', '>', ']', '+', '>']
}

/// The left-over opening of a voice tag, `<v\s+`.
pub open spec fn open_voice_tag_source() -> Seq<char> {
    seq!['<', 'v', '\\', 's', '+']
}

/// A line the modal keeps: not blank, not a cue number, not the header, not a timing line.
pub open spec fn keeps_modal_line(line: Seq<char>) -> bool {
    &&& trimmed(line).len() > 0
    &&& parse_i32_spec(trimmed(line)) is Err
    &&& !starts_with_seq(line, vtt_header())
    &&& !contains_seq(line, arrow())
}

/// A kept line with its voice tags removed, trimmed.
pub open spec fn modal_line(line: Seq<char>, full: Seq<char>, open: Seq<char>) -> Seq<char> {
    trimmed(regex_replaced(open, regex_replaced(full, line, seq![]), seq![]))
}

/// The modal's lines: kept lines, cleaned, the empty results dropped.
pub open spec fn modal_lines(ls: Seq<Seq<char>>, full: Seq<char>, open: Seq<char>) -> Seq<Seq<char>>
    decreases ls.len(),
{
    if ls.len() == 0 {
        seq![]
    } else {
        let rest = modal_lines(ls.drop_first(), full, open);
        if keeps_modal_line(ls[0]) && modal_line(ls[0], full, open).len() > 0 {
            seq![modal_line(ls[0], full, open)] + rest
        } else {
            rest
        }
    }
}

/// The plain text the transcript modal shows for SRT/VTT content.
pub open spec fn modal_text(content: Seq<char>, full: Seq<char>, open: Seq<char>) -> Seq<char> {
    joined(modal_lines(lines_of(content), full, open), seq!['\n'])
}

fn vtt_header_chars() -> (r: Vec<char>)
    ensures
        r@ == vtt_header(),
{
    let mut r: Vec<char> = Vec::new();
    r.push('W');
    r.push('E');
    r.push('B');
    r.push('V');
    r.push('T');
    r.push('T');
    assert(r@ =~= vtt_header());
    r
}

fn modal_line_exec(line: &Vec<char>, full: &Pattern, open: &Pattern) -> (r: Vec<char>)
    ensures
        r@ == modal_line(line@, full.source_text(), open.source_text()),
{
    let s = string_from_chars(line);
    let nothing = String::new();
    let a = regex_replace_all(full, s.as_str(), nothing.as_str());
    let b = regex_replace_all(open, a.as_str(), nothing.as_str());
    trim_chars(&chars_of(b.as_str()))
}

/// The plain text of SRT/VTT content as the transcript modal shows it, given the two
/// compiled voice tag expressions.
pub fn modal_transcript_text_with(content: &str, full: &Pattern, open: &Pattern) -> (r: String)
    ensures
        r@ == modal_text(content@, full.source_text(), open.source_text()),
{
    let lines = lines_chars(&chars_of(content));
    let ghost lv = views(lines@);
    let ghost f = full.source_text();
    let ghost o = open.source_text();
    let sep = arrow_chars();
    let header = vtt_header_chars();
    let mut kept: Vec<Vec<char>> = Vec::new();
    let mut i: usize = 0;
    assert(lv.skip(0) =~= lv);
    while i < lines.len()
        invariant
            i <= lines.len(),
            lv == views(lines@),
            lv == lines_of(content@),
            f == full.source_text(),
            o == open.source_text(),
            sep@ == arrow(),
            header@ == vtt_header(),
            modal_lines(lv, f, o) == views(kept@) + modal_lines(lv.skip(i as int), f, o),
        decreases lines.len() - i,
    {
        let ghost rest = lv.skip(i as int);
        let ghost before = views(kept@);
        assert(rest[0] == lines@[i as int]@);
        assert(rest.drop_first() =~= lv.skip(i + 1));
        let line = &lines[i];
        let t = trim_chars(line);
        let keep = t.len() > 0 && parse_i32_chars(&t).is_err() && !starts_with_chars(line, &header)
            && !contains_chars(line, &sep);
        assert(keep == keeps_modal_line(line@));
        if keep {
            let c = modal_line_exec(line, full, open);
            if c.len() > 0 {
                kept.push(c);
                assert(views(kept@) =~= before + seq![c@]);
            }
        }
        i = i + 1;
    }
    assert(lv.skip(i as int) =~= Seq::<Seq<char>>::empty());
    assert(views(kept@) =~= views(kept@) + Seq::<Seq<char>>::empty());
    let mut nl: Vec<char> = Vec::new();
    nl.push('\n');
    assert(nl@ =~= seq!['\n']);
    string_from_chars(&join_chars(&kept, &nl))
}

fn chars_to_pattern(cs: Vec<char>) -> (r: Option<Pattern>)
    ensures
        r is Some <==> regex_compiles(cs@),
        r matches Some(p) ==> p.source_text() == cs@,
{
    let src = string_from_chars(&cs);
    compile_pattern(src.as_str())
}

/// `modal_transcript_text_with` under the expressions `<v\s+[^>]+>` and `<v\s+`;
/// `None` only if the regex crate refuses one of them.
pub fn modal_transcript_text(content: &str) -> (r: Option<String>)
    ensures
        r is Some <==> regex_compiles(full_voice_tag_source()) && regex_compiles(
            open_voice_tag_source(),
        ),
        r matches Some(t) ==> t@ == modal_text(
            content@,
            full_voice_tag_source(),
            open_voice_tag_source(),
        ),
{
    let mut f: Vec<char> = Vec::new();
    f.push('<');
    f.push('v');
    f.push('\\');
    f.push('s');
    f.push('+');
    let mut o: Vec<char> = Vec::new();
    o.push('<');
    o.push('v');
    o.push('\\');
    o.push('s');
    o.push('+');
    assert(o@ =~= open_voice_tag_source());
    f.push('[');
    f.push('^');
    f.push('>');
    f.push(']');
    f.push('+');
    f.push('>');
    assert(f@ =~= full_voice_tag_source());
    let full = chars_to_pattern(f);
    let open = chars_to_pattern(o);
    match (full, open) {
        (Some(fp), Some(op)) => Some(modal_transcript_text_with(content, &fp, &op)),
        _ => None,
    }
}


// ---------------------------------------------------------------- AI transcript controls

/// The stored AI transcript is finished.
pub open spec fn status_is_complete(status: Option<String>) -> bool {
    status matches Some(s) && s@ == "complete"@
}

/// The stored AI transcript is still being produced.
pub open spec fn status_is_running(status: Option<String>) -> bool {
    status matches Some(s) && (s@ == "running"@ || s@ == "pending"@)
}

/// Whether the AI transcript status is `complete`.
pub fn ai_transcript_complete(status: &Option<String>) -> (r: bool)
    ensures
        r == status_is_complete(*status),
{
    match status {
        Some(s) => str_eq(s.as_str(), "complete"),
        None => false,
    }
}

/// Whether the AI transcript status is `running` or `pending`.
pub fn ai_transcript_running(status: &Option<String>) -> (r: bool)
    ensures
        r == status_is_running(*status),
{
    match status {
        Some(s) => str_eq(s.as_str(), "running") || str_eq(s.as_str(), "pending"),
        None => false,
    }
}

/// What the transcript views keep of a transcription request: whether it is being sent,
/// and the source and status of the stored AI transcript.
pub struct TranscribeState {
    pub submitting: bool,
    pub source: Option<String>,
    pub status: Option<String>,
}

/// A transcription request is being sent.
pub fn begin_transcribe(state: &mut TranscribeState)
    ensures
        final(state).submitting,
        final(state).source == old(state).source,
        final(state).status == old(state).status,
{
    state.submitting = true;
}

/// The server answered a transcription request. Once it accepted, the stored transcript is a
/// generated one whose status is `running`; a refusal leaves it as it was. Either way nothing
/// is being sent any more.
pub fn finish_transcribe(state: &mut TranscribeState, accepted: bool)
    ensures
        !final(state).submitting,
        accepted ==> (final(state).source matches Some(x) && x@ == "generated"@),
        accepted ==> (final(state).status matches Some(x) && x@ == "running"@),
        !accepted ==> final(state).source == old(state).source && final(state).status == old(state).status,
{
    if accepted {
        state.source = Some("generated".to_owned());
        state.status = Some("running".to_owned());
    }
    state.submitting = false;
}

/// Once the server has accepted a transcription request, the transcript views show that
/// transcription is under way: the status reads as running, and with the AI service the
/// Transcript tab shows its progress note whatever the completion flag says.
pub proof fn lemma_accepted_request_shows_progress(after: TranscribeState, complete: bool)
    requires
        after.status matches Some(x) && x@ == "running"@,
    ensures
        status_is_running(after.status),
        tab_action(true, status_is_running(after.status), after.submitting, complete)
            == TranscriptAction::Transcribing,
{
}

/// A transcript the Transcript tab lets the listener pick, with its button label.
#[derive(Clone, Debug, PartialEq, Eq)]
pub struct TranscriptSource {
    pub label: String,
    pub transcript: Transcript,
}

/// The label of a feed transcript: its language when given and not empty, else `builtin`.
pub open spec fn source_label(t: Transcript, builtin: Seq<char>) -> Seq<char> {
    match t.language {
        Some(l) => if l@.len() > 0 {
            l@
        } else {
            builtin
        },
        None => builtin,
    }
}

/// The selectable transcripts: every feed transcript in order, then the AI transcript when
/// it is complete.
pub fn transcript_sources(
    feed: &Vec<Transcript>,
    builtin_label: &str,
    ai_label: &str,
    ai_complete: bool,
    episode_id: i32,
) -> (r: Vec<TranscriptSource>)
    ensures
        r.len() == feed.len() + (if ai_complete { 1int } else { 0int }),
        forall|i: int|
            0 <= i < feed.len() ==> r[i].transcript == feed[i] && r[i].label@ == source_label(
                feed[i],
                builtin_label@,
            ),
        ai_complete ==> r[feed.len() as int].label@ == ai_label@ && is_ai_transcript_entry(
            r[feed.len() as int].transcript,
            episode_id as int,
        ),
{
    let mut r: Vec<TranscriptSource> = Vec::new();
    let mut i: usize = 0;
    while i < feed.len()
        invariant
            i <= feed.len(),
            r.len() == i,
            forall|j: int|
                0 <= j < i ==> r[j].transcript == feed[j] && r[j].label@ == source_label(
                    feed[j],
                    builtin_label@,
                ),
        decreases feed.len() - i,
    {
        let t = copy_transcript(&feed[i]);
        let label = match &feed[i].language {
            Some(l) => if l.as_str().is_empty() {
                builtin_label.to_owned()
            } else {
                l.clone()
            },
            None => builtin_label.to_owned(),
        };
        r.push(TranscriptSource { label, transcript: t });
        i = i + 1;
    }
    if ai_complete {
        r.push(TranscriptSource { label: ai_label.to_owned(), transcript: ai_transcript_entry(episode_id) });
    }
    r
}

/// The source shown: the chosen one, or the last when the choice is past the end.
pub fn selected_source_index(selected: usize, count: usize) -> (r: usize)
    ensures
        r == if count == 0 {
            0
        } else if selected < count {
            selected
        } else {
            (count - 1) as usize
        },
{
    let last = if count == 0 { 0 } else { count - 1 };
    if selected < last { selected } else { last }
}

/// The AI transcript control shown under a transcript.
#[derive(Clone, Copy, Debug, PartialEq, Eq, Structural)]
pub enum TranscriptAction {
    /// No control (the AI service is not connected).
    Hidden,
    /// A note that transcription is under way.
    Transcribing,
    /// A disabled button while the request is being sent.
    Starting,
    /// A button that transcribes again.
    Regenerate,
    /// A button that transcribes for the first time.
    Generate,
}

/// The generate/regenerate control of the Transcript tab: none without the AI service, a
/// note while transcribing, else a button (disabled while sending, "regenerate" once an AI
/// transcript is complete, "generate" before).
pub open spec fn tab_action(ai_available: bool, running: bool, submitting: bool, complete: bool) -> TranscriptAction {
    if !ai_available {
        TranscriptAction::Hidden
    } else if running {
        TranscriptAction::Transcribing
    } else if submitting {
        TranscriptAction::Starting
    } else if complete {
        TranscriptAction::Regenerate
    } else {
        TranscriptAction::Generate
    }
}

/// The Transcript tab's control: nothing without the AI service; with it, the progress note
/// whenever transcription is under way; otherwise a disabled button while sending, and else a
/// button that regenerates exactly when an AI transcript is complete. The five controls are
/// different.
pub proof fn lemma_tab_action(ai_available: bool, running: bool, submitting: bool, complete: bool)
    ensures
        !ai_available ==> tab_action(ai_available, running, submitting, complete) == TranscriptAction::Hidden,
        ai_available && running ==> tab_action(ai_available, running, submitting, complete)
            == TranscriptAction::Transcribing,
        ai_available && !running && submitting ==> tab_action(ai_available, running, submitting, complete)
            == TranscriptAction::Starting,
        ai_available && !running && !submitting ==> (tab_action(ai_available, running, submitting, complete)
            == TranscriptAction::Regenerate <==> complete),
        ai_available && !running && !submitting ==> (tab_action(ai_available, running, submitting, complete)
            == TranscriptAction::Generate <==> !complete),
        TranscriptAction::Hidden != TranscriptAction::Transcribing && TranscriptAction::Starting
            != TranscriptAction::Regenerate && TranscriptAction::Regenerate != TranscriptAction::Generate
            && TranscriptAction::Starting != TranscriptAction::Generate,
{
}

/// The generate/regenerate control of the Transcript tab.
pub fn transcript_tab_action(ai_available: bool, running: bool, submitting: bool, complete: bool) -> (r: TranscriptAction)
    ensures
        r == tab_action(ai_available, running, submitting, complete),
{
    if !ai_available {
        TranscriptAction::Hidden
    } else if running {
        TranscriptAction::Transcribing
    } else if submitting {
        TranscriptAction::Starting
    } else if complete {
        TranscriptAction::Regenerate
    } else {
        TranscriptAction::Generate
    }
}

/// Whether the Transcript tab shows anything: it is empty only with no transcript to show
/// and no AI service to make one.
pub fn transcript_tab_visible(source_count: usize, ai_available: bool) -> (r: bool)
    ensures
        r == !(source_count == 0 && !ai_available),
{
    !(source_count == 0 && !ai_available)
}

/// What the mobile transcript section shows.
#[derive(Clone, Copy, Debug, PartialEq, Eq, Structural)]
pub struct MobileTranscriptControls {
    /// Whether the section is shown at all.
    pub visible: bool,
    /// Whether the "view AI transcript" button is shown.
    pub view_button: bool,
    /// The generate/regenerate control.
    pub action: TranscriptAction,
}

/// The mobile transcript section: hidden without the AI service unless an AI transcript is
/// complete; a view button for a complete AI transcript; a note while transcribing, else a
/// generate/regenerate button when the service is there.
pub fn mobile_transcript_controls(ai_available: bool, running: bool, submitting: bool, complete: bool) -> (r: MobileTranscriptControls)
    ensures
        r.visible == (ai_available || complete),
        r.visible ==> r.view_button == complete,
        !r.visible ==> !r.view_button && r.action == TranscriptAction::Hidden,
        r.visible && running ==> r.action == TranscriptAction::Transcribing,
        r.visible && !running && !ai_available ==> r.action == TranscriptAction::Hidden,
        r.visible && !running && ai_available ==> r.action == tab_action(
            ai_available,
            running,
            submitting,
            complete,
        ),
{
    if !ai_available && !complete {
        return MobileTranscriptControls { visible: false, view_button: false, action: TranscriptAction::Hidden };
    }
    let action = if running {
        TranscriptAction::Transcribing
    } else if ai_available {
        transcript_tab_action(ai_available, running, submitting, complete)
    } else {
        TranscriptAction::Hidden
    };
    MobileTranscriptControls { visible: true, view_button: complete, action }
}

/// Indices of the skip segments of kind `ad`, in order.
pub fn ad_segment_indices(kinds: &Vec<String>) -> (r: Vec<usize>)
    ensures
        forall|k: int| 0 <= k < r.len() ==> r[k] < kinds.len() && kinds[r[k] as int]@ == "ad"@,
        forall|k: int, l: int| 0 <= k < l < r.len() ==> r[k] < r[l],
        forall|i: int| 0 <= i < kinds.len() && kinds[i]@ == "ad"@ ==> r@.contains(i as usize),
{
    let mut r: Vec<usize> = Vec::new();
    let mut i: usize = 0;
    while i < kinds.len()
        invariant
            i <= kinds.len(),
            forall|k: int| 0 <= k < r.len() ==> r[k] < i && kinds[r[k] as int]@ == "ad"@,
            forall|k: int, l: int| 0 <= k < l < r.len() ==> r[k] < r[l],
            forall|j: int| 0 <= j < i && kinds[j]@ == "ad"@ ==> r@.contains(j as usize),
        decreases kinds.len() - i,
    {
        let ghost old_r = r@;
        let is_ad = str_eq(kinds[i].as_str(), "ad");
        if is_ad {
            r.push(i);
        }
        proof {
            assert forall|j: int| 0 <= j < i + 1 && kinds[j]@ == "ad"@ implies r@.contains(j as usize) by {
                if j < i {
                    let k = choose|k: int| 0 <= k < old_r.len() && old_r[k] == j as usize;
                    assert(r@[k] == old_r[k]);
                } else {
                    assert(r@[r.len() - 1] == i);
                }
            }
        }
        i = i + 1;
    }
    r
}

/// Whether a detected ad is skipped during playback: its status is `active` or
/// `confirmed` (no status counts as neither).
pub fn ad_is_skipped(status: &Option<String>) -> (r: bool)
    ensures
        r == (status matches Some(s) && (s@ == "active"@ || s@ == "confirmed"@)),
{
    match status {
        Some(s) => str_eq(s.as_str(), "active") || str_eq(s.as_str(), "confirmed"),
        None => false,
    }
}

} // verus!
