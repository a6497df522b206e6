//! The page of one episode: which episode the address asks for, how it is found in its feed,
//! the addresses the page writes back and shares, and its chapters.

use vstd::prelude::*;

use crate::hosts::proxied_image_url;
use crate::text::{
    append_chars, bool_chars, bool_text, chars_of, decimal, decimal_chars, digits_chars, parse_bool,
    parse_bool_spec, parse_i32, parse_i32_spec, replace, replaced, str_eq, string_from_chars,
    IntErrorKind,
};

verus! {

// ---------------------------------------------------------------- percent-encoding

/// The bytes `urlencoding` leaves as they are: ASCII letters, digits, `-`, `.`, `_`, `~`.
pub open spec fn is_unreserved(b: u8) -> bool {
    ||| 48 <= b <= 57
    ||| 65 <= b <= 90
    ||| 97 <= b <= 122
    ||| b == 45
    ||| b == 46
    ||| b == 95
    ||| b == 126
}

/// An upper-case hexadecimal digit.
pub open spec fn hex_digit(d: int) -> char {
    if d < 10 {
        (48 + d) as char
    } else {
        (55 + d) as char
    }
}

/// Bytes percent-encoded: unreserved bytes kept, every other byte as `%` and two upper-case
/// hexadecimal digits.
pub open spec fn percent_encoded(bs: Seq<u8>) -> Seq<char>
    decreases bs.len(),
{
    if bs.len() == 0 {
        seq![]
    } else {
        (if is_unreserved(bs[0]) {
            seq![bs[0] as char]
        } else {
            seq!['%', hex_digit(bs[0] as int / 16), hex_digit(bs[0] as int % 16)]
        }) + percent_encoded(bs.drop_first())
    }
}

/// What `urlencoding::encode` returns: the UTF-8 bytes of `s`, percent-encoded.
pub open spec fn url_encoded(s: Seq<char>) -> Seq<char> {
    percent_encoded(vstd::utf8::encode_utf8(s))
}

/// `urlencoding::encode` (as its source in version 2.1.3 does): percent-encodes every byte
/// of the UTF-8 text except ASCII letters, digits and `-`, `.`, `_`, `~`, with upper-case
/// hexadecimal digits.
#[verifier::external_body]
pub(crate) fn url_encode(s: &str) -> (r: String)
    ensures
        r@ == url_encoded(s@),
{
    urlencoding::encode(s).into_owned()
}

/// The characters that delimit query parameters and fragments.
pub open spec fn is_query_delimiter(c: char) -> bool {
    c == '&' || c == '=' || c == '?' || c == '#'
}

/// A percent-encoded value never holds a character that delimits query parameters.
pub proof fn lemma_percent_encoded_has_no_delimiter(bs: Seq<u8>)
    ensures
        forall|k: int| 0 <= k < percent_encoded(bs).len() ==> !is_query_delimiter(#[trigger] percent_encoded(bs)[k]),
    decreases bs.len(),
{
    if bs.len() > 0 {
        lemma_percent_encoded_has_no_delimiter(bs.drop_first());
        let head = if is_unreserved(bs[0]) {
            seq![bs[0] as char]
        } else {
            seq!['%', hex_digit(bs[0] as int / 16), hex_digit(bs[0] as int % 16)]
        };
        assert forall|k: int| 0 <= k < head.len() implies !is_query_delimiter(#[trigger] head[k]) by {
            if is_unreserved(bs[0]) {
                assert(head[k] == bs[0] as char);
            } else if k > 0 {
                let d = if k == 1 { bs[0] as int / 16 } else { bs[0] as int % 16 };
                assert(0 <= d < 16);
            }
        }
        assert forall|k: int| 0 <= k < percent_encoded(bs).len() implies !is_query_delimiter(#[trigger] percent_encoded(bs)[k]) by {
            if k < head.len() {
                assert(percent_encoded(bs)[k] == head[k]);
            } else {
                assert(percent_encoded(bs)[k] == percent_encoded(bs.drop_first())[k - head.len()]);
            }
        }
    }
}

/// Percent-encoding a text yields no query delimiter.
pub proof fn lemma_url_encoded_has_no_delimiter(s: Seq<char>)
    ensures
        forall|k: int| 0 <= k < url_encoded(s).len() ==> !is_query_delimiter(#[trigger] url_encoded(s)[k]),
{
    lemma_percent_encoded_has_no_delimiter(vstd::utf8::encode_utf8(s));
}


// ---------------------------------------------------------------- which episode to show

/// The query parameters of the episode page's address, as read.
#[derive(Clone, Debug, PartialEq, Eq)]
pub struct EpisodeQuery {
    pub episode_id: Option<String>,
    pub youtube: Option<String>,
    pub person: Option<String>,
    pub podcast_title: Option<String>,
    pub episode_url: Option<String>,
    pub audio_url: Option<String>,
    pub podcast_index_id: Option<String>,
    pub is_youtube: Option<String>,
}

/// Where the episode page takes its episode from.
#[derive(Clone, Debug, PartialEq, Eq)]
pub enum EpisodeSource {
    /// The server's database, by id.
    ById { episode_id: i32, person_episode: bool, youtube: bool },
    /// The `episode_id` parameter is not a number: the page shows this error.
    BadId(IntErrorKind),
    /// The podcast's feed, by the episode's addresses.
    ByFeed {
        podcast_title: String,
        episode_url: String,
        audio_url: String,
        podcast_index_id: i32,
        is_youtube: bool,
    },
}

/// A flag parameter: `true` only for the exact word `true`.
pub open spec fn flag_param(p: Option<String>) -> bool {
    match p {
        Some(s) => parse_bool_spec(s@) == Some(true),
        None => false,
    }
}

fn read_flag(p: &Option<String>) -> (r: bool)
    ensures
        r == flag_param(*p),
{
    match p {
        Some(s) => match parse_bool(s.as_str()) {
            Some(b) => b,
            None => false,
        },
        None => false,
    }
}

fn text_or_empty(p: &Option<String>) -> (r: String)
    ensures
        r@ == (match *p {
            Some(s) => s@,
            None => Seq::<char>::empty(),
        }),
{
    match p {
        Some(s) => s.clone(),
        None => String::new(),
    }
}

/// Decides where the episode comes from: by id when an `episode_id` is given (an error
/// when it is not a number), else from the feed parameters, each missing text empty, the
/// index id 0 unless it reads as a number, the flags false unless exactly `true`.
pub fn episode_source(q: &EpisodeQuery) -> (r: EpisodeSource)
    ensures
        match q.episode_id {
            Some(id) => match parse_i32_spec(id@) {
                Ok(v) => r == EpisodeSource::ById {
                    episode_id: v as i32,
                    person_episode: flag_param(q.person),
                    youtube: flag_param(q.youtube),
                },
                Err(e) => r == EpisodeSource::BadId(e),
            },
            None => match r {
                EpisodeSource::ByFeed { podcast_title, episode_url, audio_url, podcast_index_id, is_youtube } => {
                    &&& podcast_title@ == (match q.podcast_title { Some(s) => s@, None => Seq::<char>::empty() })
                    &&& episode_url@ == (match q.episode_url { Some(s) => s@, None => Seq::<char>::empty() })
                    &&& audio_url@ == (match q.audio_url { Some(s) => s@, None => Seq::<char>::empty() })
                    &&& podcast_index_id == (match q.podcast_index_id {
                        Some(s) => match parse_i32_spec(s@) {
                            Ok(v) => v as i32,
                            Err(_) => 0i32,
                        },
                        None => 0i32,
                    })
                    &&& is_youtube == flag_param(q.is_youtube)
                },
                _ => false,
            },
        },
{
    match &q.episode_id {
        Some(id) => match parse_i32(id.as_str()) {
            Ok(v) => EpisodeSource::ById {
                episode_id: v,
                person_episode: read_flag(&q.person),
                youtube: read_flag(&q.youtube),
            },
            Err(e) => EpisodeSource::BadId(e),
        },
        None => {
            let index_id = match &q.podcast_index_id {
                Some(s) => match parse_i32(s.as_str()) {
                    Ok(v) => v,
                    Err(_) => 0,
                },
                None => 0,
            };
            EpisodeSource::ByFeed {
                podcast_title: text_or_empty(&q.podcast_title),
                episode_url: text_or_empty(&q.episode_url),
                audio_url: text_or_empty(&q.audio_url),
                podcast_index_id: index_id,
                is_youtube: read_flag(&q.is_youtube),
            }
        },
    }
}

/// The feed is consulted only when the title and both addresses are given.
pub fn feed_lookup_possible(podcast_title: &str, episode_url: &str, audio_url: &str) -> (r: bool)
    ensures
        r == (podcast_title@.len() > 0 && episode_url@.len() > 0 && audio_url@.len() > 0),
{
    !podcast_title.is_empty() && !episode_url.is_empty() && !audio_url.is_empty()
}

/// What looking an episode up in its parsed feed gives.
#[derive(Clone, Copy, Debug, PartialEq, Eq, Structural)]
pub enum FeedLookup {
    /// No episode of the feed has this audio address.
    NotFound,
    /// The first episode with this audio address has no duration.
    NoDuration,
    /// The position of the first episode with this audio address.
    Found(usize),
}

/// Finds the episode by its audio address among the feed's episodes, given their audio
/// addresses and durations.
pub fn feed_lookup(audio_urls: &Vec<String>, durations: &Vec<i32>, audio_url: &str) -> (r: FeedLookup)
    requires
        audio_urls.len() == durations.len(),
    ensures
        r == FeedLookup::NotFound <==> forall|k: int| 0 <= k < audio_urls.len() ==> audio_urls[k]@ != audio_url@,
        r matches FeedLookup::Found(k) ==> k < audio_urls.len() && audio_urls[k as int]@ == audio_url@
            && durations[k as int] != 0 && forall|j: int| 0 <= j < k ==> audio_urls[j]@ != audio_url@,
        r == FeedLookup::NoDuration ==> exists|k: int|
            0 <= k < audio_urls.len() && audio_urls[k]@ == audio_url@ && durations[k] == 0 && forall|j: int|
                0 <= j < k ==> audio_urls[j]@ != audio_url@,
{
    let mut i: usize = 0;
    while i < audio_urls.len()
        invariant
            i <= audio_urls.len(),
            audio_urls.len() == durations.len(),
            forall|j: int| 0 <= j < i ==> audio_urls[j]@ != audio_url@,
        decreases audio_urls.len() - i,
    {
        if str_eq(audio_urls[i].as_str(), audio_url) {
            if durations[i] != 0 {
                return FeedLookup::Found(i);
            } else {
                return FeedLookup::NoDuration;
            }
        }
        i = i + 1;
    }
    FeedLookup::NotFound
}

// ---------------------------------------------------------------- addresses written back

/// The path of an episode page by id.
pub open spec fn episode_path(episode_id: int, youtube: bool) -> Seq<char> {
    "/episode?episode_id="@ + decimal(episode_id) + (if youtube { "&youtube=true"@ } else { Seq::<char>::empty() })
}

/// The path of the episode page for `episode_id`, marked when it is a video.
pub fn episode_page_path(episode_id: i32, youtube: bool) -> (r: String)
    ensures
        r@ == episode_path(episode_id as int, youtube),
{
    let mut out = chars_of("/episode?episode_id=");
    append_chars(&mut out, &decimal_chars(episode_id as i64));
    if youtube {
        append_chars(&mut out, &chars_of("&youtube=true"));
    }
    string_from_chars(&out)
}

/// The query that lets the episode page find a feed episode again.
pub open spec fn feed_episode_query_text(
    podcast_title: Seq<char>,
    episode_url: Seq<char>,
    audio_url: Seq<char>,
    podcast_index_id: int,
    is_youtube: bool,
) -> Seq<char> {
    "?podcast_title="@ + url_encoded(podcast_title) + "&episode_url="@ + url_encoded(episode_url)
        + "&audio_url="@ + url_encoded(audio_url) + "&podcast_index_id="@ + decimal(podcast_index_id)
        + "&is_youtube="@ + bool_text(is_youtube)
}

/// The query string written after a feed episode is found (the page's origin and path go
/// before it).
pub fn feed_episode_query(
    podcast_title: &str,
    episode_url: &str,
    audio_url: &str,
    podcast_index_id: i32,
    is_youtube: bool,
) -> (r: String)
    ensures
        r@ == feed_episode_query_text(podcast_title@, episode_url@, audio_url@, podcast_index_id as int, is_youtube),
{
    let mut out = chars_of("?podcast_title=");
    append_chars(&mut out, &chars_of(url_encode(podcast_title).as_str()));
    append_chars(&mut out, &chars_of("&episode_url="));
    append_chars(&mut out, &chars_of(url_encode(episode_url).as_str()));
    append_chars(&mut out, &chars_of("&audio_url="));
    append_chars(&mut out, &chars_of(url_encode(audio_url).as_str()));
    append_chars(&mut out, &chars_of("&podcast_index_id="));
    append_chars(&mut out, &decimal_chars(podcast_index_id as i64));
    append_chars(&mut out, &chars_of("&is_youtube="));
    append_chars(&mut out, &bool_chars(is_youtube));
    string_from_chars(&out)
}

/// The query string of a podcast page opened from a feed address.
pub fn podcast_page_query(podcast_title: &str, podcast_url: &str) -> (r: String)
    ensures
        r@ == "?podcast_title="@ + url_encoded(podcast_title@) + "&podcast_url="@ + url_encoded(podcast_url@),
{
    let mut out = chars_of("?podcast_title=");
    append_chars(&mut out, &chars_of(url_encode(podcast_title).as_str()));
    append_chars(&mut out, &chars_of("&podcast_url="));
    append_chars(&mut out, &chars_of(url_encode(podcast_url).as_str()));
    string_from_chars(&out)
}

/// The address to share from the desktop app: the page address (or a fixed message when
/// it cannot be read) with `http://tauri.localhost` replaced by the stored server address.
pub fn shareable_page_url(current_href: &Option<String>, stored_server: &Option<String>) -> (r: String)
    ensures
        ({
            let href = match *current_href {
                Some(h) => h@,
                None => "Unable to retrieve URL"@,
            };
            match *stored_server {
                Some(server) => r@ == replaced(href, "http://tauri.localhost"@, server@),
                None => r@ == href,
            }
        }),
{
    let href = match current_href {
        Some(h) => h.clone(),
        None => "Unable to retrieve URL".to_owned(),
    };
    match stored_server {
        Some(server) => replace(href.as_str(), "http://tauri.localhost", server.as_str()),
        None => href,
    }
}


/// The link made for sharing an episode: `{server}/shared_episode/{key}`.
pub fn share_link_url(server: &str, url_key: &str) -> (r: String)
    ensures
        r@ == server@ + "/shared_episode/"@ + url_key@,
{
    let mut out = chars_of(server);
    append_chars(&mut out, &chars_of("/shared_episode/"));
    append_chars(&mut out, &chars_of(url_key));
    string_from_chars(&out)
}

// ---------------------------------------------------------------- chapters

/// Where chapter `i` starts: its start time, 0 when it has none.
pub open spec fn chapter_start(starts: Seq<Option<i32>>, i: int) -> int {
    match starts[i] {
        Some(t) => t as int,
        None => 0,
    }
}

/// Where chapter `i` ends: where the next chapter starts, or `i32::MAX` for the last chapter
/// or when the next one has no start time.
pub open spec fn chapter_end(starts: Seq<Option<i32>>, i: int) -> int {
    if i + 1 < starts.len() {
        match starts[i + 1] {
            Some(t) => t as int,
            None => i32::MAX as int,
        }
    } else {
        i32::MAX as int
    }
}

/// The span in seconds of each chapter, from the chapters' start times; the playing chapter
/// is the one whose span holds the play position.
pub fn chapter_spans(starts: &Vec<Option<i32>>) -> (r: Vec<(i32, i32)>)
    ensures
        r@.len() == starts@.len(),
        forall|i: int|
            0 <= i < starts@.len() ==> (#[trigger] r@[i]).0 as int == chapter_start(starts@, i) && r@[i].1 as int
                == chapter_end(starts@, i),
{
    let mut out: Vec<(i32, i32)> = Vec::new();
    let mut i: usize = 0;
    while i < starts.len()
        invariant
            i <= starts.len(),
            out@.len() == i,
            forall|k: int|
                0 <= k < i ==> (#[trigger] out@[k]).0 as int == chapter_start(starts@, k) && out@[k].1 as int
                    == chapter_end(starts@, k),
        decreases starts.len() - i,
    {
        let start: i32 = match starts[i] {
            Some(t) => t,
            None => 0,
        };
        let end: i32 = if i + 1 < starts.len() {
            match starts[i + 1] {
                Some(t) => t,
                None => i32::MAX,
            }
        } else {
            i32::MAX
        };
        out.push((start, end));
        i = i + 1;
    }
    out
}

/// A chapter followed by one with a start time ends where that one starts.
pub proof fn lemma_chapters_follow_each_other(starts: Seq<Option<i32>>, i: int)
    requires
        0 <= i,
        i + 1 < starts.len(),
        starts[i + 1] is Some,
    ensures
        chapter_end(starts, i) == chapter_start(starts, i + 1),
{
}

/// The remainder of `a` by `b` with the sign of `a`, as Rust's `%` gives it.
pub open spec fn rem_toward_zero(a: int, b: int) -> int {
    if a >= 0 {
        a % b
    } else {
        -((-a) % b)
    }
}

/// `n` written with at least two characters, a leading zero added to one digit (`{:02}`).
pub open spec fn two_digits(n: int) -> Seq<char> {
    if 0 <= n < 10 {
        seq!['0'] + decimal(n)
    } else {
        decimal(n)
    }
}

/// The clock reading `hh:mm:ss` shown when playback jumps to a chapter starting at `start`
/// seconds: whole hours rounded down, then the minutes and seconds of the remainder.
pub open spec fn clock_text(start: int) -> Seq<char> {
    two_digits(start / 3600) + seq![':'] + two_digits(rem_toward_zero(start, 3600) / 60) + seq![':']
        + two_digits(rem_toward_zero(start, 60))
}

/// For a chapter starting `h` hours, `m` minutes and `s` seconds in, the clock reads those
/// three numbers, each written with at least two digits.
pub proof fn lemma_clock_reads_hours_minutes_seconds(h: int, m: int, s: int)
    requires
        h >= 0,
        0 <= m < 60,
        0 <= s < 60,
    ensures
        clock_text(h * 3600 + m * 60 + s) == two_digits(h) + seq![':'] + two_digits(m) + seq![':'] + two_digits(s),
{
    let start = h * 3600 + m * 60 + s;
    assert(start >= 0) by (nonlinear_arith)
        requires
            h >= 0,
            m >= 0,
            s >= 0,
            start == h * 3600 + m * 60 + s,
    ;
    assert(start / 3600 == h && start % 3600 == m * 60 + s) by (nonlinear_arith)
        requires
            h >= 0,
            0 <= m < 60,
            0 <= s < 60,
            start == h * 3600 + m * 60 + s,
    ;
    assert((m * 60 + s) / 60 == m) by (nonlinear_arith)
        requires
            0 <= m < 60,
            0 <= s < 60,
    ;
    assert(start % 60 == s) by (nonlinear_arith)
        requires
            h >= 0,
            0 <= m < 60,
            0 <= s < 60,
            start == h * 3600 + m * 60 + s,
    ;
}

fn two_digit_chars(n: i64) -> (r: Vec<char>)
    ensures
        r@ == two_digits(n as int),
{
    if 0 <= n && n < 10 {
        let mut out: Vec<char> = Vec::new();
        out.push('0');
        append_chars(&mut out, &decimal_chars(n));
        assert(out@ =~= seq!['0'] + decimal(n as int));
        out
    } else {
        decimal_chars(n)
    }
}

fn floor_div(a: i64, b: i64) -> (q: i64)
    requires
        0 < b < 1_000_000,
        -4_000_000_000 < a < 4_000_000_000,
    ensures
        q as int == a as int / b as int,
{
    if a >= 0 {
        a / b
    } else {
        let m: i64 = (-a + b - 1) / b;
        let q: i64 = -m;
        let ghost ai: int = a as int;
        let ghost bi: int = b as int;
        let ghost mi: int = m as int;
        assert(-mi == ai / bi) by (nonlinear_arith)
            requires
                ai < 0,
                0 < bi,
                mi == (-ai + bi - 1) / bi,
        ;
        q
    }
}

fn rem_trunc(a: i64, b: i64) -> (r: i64)
    requires
        0 < b < 1_000_000,
        -4_000_000_000 < a < 4_000_000_000,
    ensures
        r as int == rem_toward_zero(a as int, b as int),
        -(b as int) < r < b,
{
    if a >= 0 {
        a % b
    } else {
        -((-a) % b)
    }
}

/// The clock reading for a chapter that starts at `start` seconds.
pub fn chapter_clock(start: i32) -> (r: String)
    ensures
        r@ == clock_text(start as int),
{
    let s = start as i64;
    let hours = floor_div(s, 3600);
    let minutes = floor_div(rem_trunc(s, 3600), 60);
    let seconds = rem_trunc(s, 60);
    let mut out = two_digit_chars(hours);
    out.push(':');
    append_chars(&mut out, &two_digit_chars(minutes));
    out.push(':');
    append_chars(&mut out, &two_digit_chars(seconds));
    assert(out@ =~= clock_text(start as int));
    string_from_chars(&out)
}

/// The number of chapter `index` (counted from 0) as the list writes it: `01`, `02`, ...
pub fn chapter_number_label(index: usize) -> (r: String)
    requires
        index < usize::MAX,
    ensures
        r@ == two_digits(index + 1),
{
    let n: u64 = index as u64 + 1;
    let ds = digits_chars(n);
    if n < 10 {
        let mut out: Vec<char> = Vec::new();
        out.push('0');
        append_chars(&mut out, &ds);
        assert(out@ =~= seq!['0'] + decimal(n as int));
        string_from_chars(&out)
    } else {
        string_from_chars(&ds)
    }
}

/// A chapter's picture fetched through the server, when the chapter names a non-empty one;
/// an unknown server counts as an empty address.
pub fn chapter_image_url(server: &Option<String>, img: &Option<String>) -> (r: Option<String>)
    ensures
        match img {
            Some(u) => u@.len() > 0 ==> (r matches Some(x) && x@ == match server {
                Some(sv) => sv@,
                None => Seq::<char>::empty(),
            } + "/api/proxy/image?url="@ + url_encoded(u@)),
            None => r is None,
        },
        (img matches Some(u) && u@.len() == 0) ==> r is None,
{
    match img {
        Some(u) => {
            if chars_of(u.as_str()).len() == 0 {
                None
            } else {
                let base = match server {
                    Some(sv) => sv.clone(),
                    None => String::new(),
                };
                Some(proxied_image_url(base.as_str(), u.as_str()))
            }
        },
        None => None,
    }
}

} // verus!
