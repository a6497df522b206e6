//! The page of one podcast: its sort and completion filters and how they are saved and sent
//! to the server, paging, its settings inputs and edit form, categories, the merge picker's
//! labels, its RSS addresses and description markup.

use htmlentity::entity::ICodedDataTrait;
use vstd::prelude::*;

use crate::text::{
    append_chars, bool_chars, bool_text, chars_of, decimal, decimal_chars, digits_chars, join_chars, join_strings,
    joined, opt_view, parse_i32, parse_i32_spec, split_at_char, split_chars, starts_with_chars, starts_with_seq, str_eq,
    is_white_space, lemma_trimmed_blank, string_from_chars, trim_chars, trimmed, views,
};

verus! {

// ---------------------------------------------------------------- sort order

/// The orders the podcast's episodes can be listed in.
#[derive(Clone, Copy, Debug, PartialEq, Eq, Structural)]
pub enum EpisodeSortDirection {
    NewestFirst,
    OldestFirst,
    ShortestFirst,
    LongestFirst,
    TitleAZ,
    TitleZA,
}

/// The word under which an order is saved and offered in the sort menu.
pub open spec fn episode_sort_word(d: EpisodeSortDirection) -> Seq<char> {
    match d {
        EpisodeSortDirection::NewestFirst => "newest"@,
        EpisodeSortDirection::OldestFirst => "oldest"@,
        EpisodeSortDirection::ShortestFirst => "shortest"@,
        EpisodeSortDirection::LongestFirst => "longest"@,
        EpisodeSortDirection::TitleAZ => "title_az"@,
        EpisodeSortDirection::TitleZA => "title_za"@,
    }
}

/// `s` is the word of some order.
pub open spec fn names_an_episode_order(s: Seq<char>) -> bool {
    exists|d: EpisodeSortDirection| episode_sort_word(d) == s
}

/// The order named by a sort menu value; `None` for any other value.
pub fn episode_sort_from_choice(value: &str) -> (r: Option<EpisodeSortDirection>)
    ensures
        r matches Some(d) ==> episode_sort_word(d) == value@,
        r is None ==> !names_an_episode_order(value@),
{
    if str_eq(value, "newest") {
        Some(EpisodeSortDirection::NewestFirst)
    } else if str_eq(value, "oldest") {
        Some(EpisodeSortDirection::OldestFirst)
    } else if str_eq(value, "shortest") {
        Some(EpisodeSortDirection::ShortestFirst)
    } else if str_eq(value, "longest") {
        Some(EpisodeSortDirection::LongestFirst)
    } else if str_eq(value, "title_az") {
        Some(EpisodeSortDirection::TitleAZ)
    } else if str_eq(value, "title_za") {
        Some(EpisodeSortDirection::TitleZA)
    } else {
        None
    }
}

/// The order a podcast opens with: the one saved for it, newest first otherwise.
pub fn episode_sort_from_preference(saved: &Option<String>) -> (r: EpisodeSortDirection)
    ensures
        (saved matches Some(s) && names_an_episode_order(s@)) ==> episode_sort_word(r) == saved->0@,
        !(saved matches Some(s) && names_an_episode_order(s@)) ==> r == EpisodeSortDirection::NewestFirst,
{
    match saved {
        Some(s) => match episode_sort_from_choice(s.as_str()) {
            Some(d) => d,
            None => EpisodeSortDirection::NewestFirst,
        },
        None => EpisodeSortDirection::NewestFirst,
    }
}

/// The server's `(sort_by, sort_order)` for an order; newest first when none is chosen.
pub open spec fn sort_params(d: Option<EpisodeSortDirection>) -> (Seq<char>, Seq<char>) {
    match d {
        Some(EpisodeSortDirection::OldestFirst) => ("date"@, "asc"@),
        Some(EpisodeSortDirection::ShortestFirst) => ("duration"@, "asc"@),
        Some(EpisodeSortDirection::LongestFirst) => ("duration"@, "desc"@),
        Some(EpisodeSortDirection::TitleAZ) => ("title"@, "asc"@),
        Some(EpisodeSortDirection::TitleZA) => ("title"@, "desc"@),
        _ => ("date"@, "desc"@),
    }
}

/// The server's sort parameters tell the orders apart: two chosen orders give the same
/// pair only when they are the same order (no choice counting as newest first); each pair
/// of opposite orders sorts by the same field in the two directions, `asc` and `desc`.
pub proof fn lemma_sort_params_distinguish(a: EpisodeSortDirection, b: EpisodeSortDirection)
    ensures
        sort_params(Some(a)) == sort_params(Some(b)) ==> a == b,
        sort_params(None) == sort_params(Some(EpisodeSortDirection::NewestFirst)),
        sort_params(Some(EpisodeSortDirection::NewestFirst)).0 == sort_params(Some(EpisodeSortDirection::OldestFirst)).0,
        sort_params(Some(EpisodeSortDirection::ShortestFirst)).0 == sort_params(Some(EpisodeSortDirection::LongestFirst)).0,
        sort_params(Some(EpisodeSortDirection::TitleAZ)).0 == sort_params(Some(EpisodeSortDirection::TitleZA)).0,
        sort_params(Some(EpisodeSortDirection::OldestFirst)).1 == "asc"@,
        sort_params(Some(EpisodeSortDirection::ShortestFirst)).1 == "asc"@,
        sort_params(Some(EpisodeSortDirection::TitleAZ)).1 == "asc"@,
        sort_params(Some(EpisodeSortDirection::NewestFirst)).1 == "desc"@,
        sort_params(Some(EpisodeSortDirection::LongestFirst)).1 == "desc"@,
        sort_params(Some(EpisodeSortDirection::TitleZA)).1 == "desc"@,
{
    reveal_strlit("date");
    reveal_strlit("duration");
    reveal_strlit("title");
    reveal_strlit("asc");
    reveal_strlit("desc");
    assert("date"@.len() != "duration"@.len());
    assert("date"@ != "title"@) by {
        assert("date"@[0] != "title"@[0]);
    }
    assert("duration"@.len() != "title"@.len());
    assert("asc"@.len() != "desc"@.len());
}

/// Maps the chosen order to the server's `(sort_by, sort_order)` pair.
pub fn sort_to_params(d: Option<EpisodeSortDirection>) -> (r: (&'static str, &'static str))
    ensures
        (r.0@, r.1@) == sort_params(d),
{
    match d {
        Some(EpisodeSortDirection::OldestFirst) => ("date", "asc"),
        Some(EpisodeSortDirection::ShortestFirst) => ("duration", "asc"),
        Some(EpisodeSortDirection::LongestFirst) => ("duration", "desc"),
        Some(EpisodeSortDirection::TitleAZ) => ("title", "asc"),
        Some(EpisodeSortDirection::TitleZA) => ("title", "desc"),
        _ => ("date", "desc"),
    }
}

// ---------------------------------------------------------------- completion filter

/// The three-way completion filter of the podcast page.
#[derive(Clone, Copy, Debug, PartialEq, Eq, Structural)]
pub enum CompletedFilter {
    ShowAll,
    ShowOnly,
    Hide,
}

/// The word under which a completion filter is saved.
pub open spec fn completed_filter_word(c: CompletedFilter) -> Seq<char> {
    match c {
        CompletedFilter::ShowAll => "show_all"@,
        CompletedFilter::ShowOnly => "show_only"@,
        CompletedFilter::Hide => "hide"@,
    }
}

/// The filter a saved word stands for: "show all" for no word or an unknown one.
pub open spec fn filter_from_word(saved: Option<Seq<char>>) -> CompletedFilter {
    match saved {
        Some(w) => if w == "show_only"@ {
            CompletedFilter::ShowOnly
        } else if w == "hide"@ {
            CompletedFilter::Hide
        } else {
            CompletedFilter::ShowAll
        },
        None => CompletedFilter::ShowAll,
    }
}

/// The filter saved for a podcast; "show all" for none or an unknown word.
pub fn completed_filter_from_preference(saved: &Option<String>) -> (r: CompletedFilter)
    ensures
        r == filter_from_word(
            match saved {
                Some(s) => Some(s@),
                None => None,
            },
        ),
{
    match saved {
        Some(s) => if str_eq(s.as_str(), "show_only") {
            CompletedFilter::ShowOnly
        } else if str_eq(s.as_str(), "hide") {
            CompletedFilter::Hide
        } else {
            CompletedFilter::ShowAll
        },
        None => CompletedFilter::ShowAll,
    }
}

/// The word a filter is saved under.
pub fn completed_filter_preference(c: CompletedFilter) -> (r: &'static str)
    ensures
        r@ == completed_filter_word(c),
{
    match c {
        CompletedFilter::ShowAll => "show_all",
        CompletedFilter::ShowOnly => "show_only",
        CompletedFilter::Hide => "hide",
    }
}

/// The completion chip cycles: all, then only completed, then completed hidden, then all.
pub open spec fn next_filter(c: CompletedFilter) -> CompletedFilter {
    match c {
        CompletedFilter::ShowAll => CompletedFilter::ShowOnly,
        CompletedFilter::ShowOnly => CompletedFilter::Hide,
        CompletedFilter::Hide => CompletedFilter::ShowAll,
    }
}

/// A click on the completion chip.
pub fn cycle_completed_filter(c: CompletedFilter) -> (r: CompletedFilter)
    ensures
        r == next_filter(c),
{
    match c {
        CompletedFilter::ShowAll => CompletedFilter::ShowOnly,
        CompletedFilter::ShowOnly => CompletedFilter::Hide,
        CompletedFilter::Hide => CompletedFilter::ShowAll,
    }
}

/// A saved completion filter is read back as itself.
pub proof fn lemma_completed_filter_restored(c: CompletedFilter)
    ensures
        filter_from_word(Some(completed_filter_word(c))) == c,
{
    reveal_strlit("show_all");
    reveal_strlit("show_only");
    reveal_strlit("hide");
    assert("show_all"@.len() != "show_only"@.len());
    assert("hide"@.len() != "show_only"@.len());
    assert("show_all"@.len() != "hide"@.len());
}

/// A saved episode order is read back as itself: its word names an order, and the only
/// order with that word is the one saved.
pub proof fn lemma_episode_sort_restored(saved: EpisodeSortDirection, read: EpisodeSortDirection)
    ensures
        names_an_episode_order(episode_sort_word(saved)),
        episode_sort_word(read) == episode_sort_word(saved) ==> read == saved,
{
    reveal_strlit("newest");
    reveal_strlit("oldest");
    reveal_strlit("shortest");
    reveal_strlit("longest");
    reveal_strlit("title_az");
    reveal_strlit("title_za");
    if episode_sort_word(read) == episode_sort_word(saved) {
        assert(episode_sort_word(read)[0] == episode_sort_word(saved)[0]);
        assert(episode_sort_word(read).len() < 8 || episode_sort_word(read)[7] == episode_sort_word(saved)[7]);
    }
}

/// Three clicks on the completion chip bring it back to where it was.
pub proof fn lemma_filter_cycle(c: CompletedFilter)
    ensures
        next_filter(next_filter(next_filter(c))) == c,
        next_filter(c) != c,
{
}

/// The server's filter word: `in_progress` when that chip is on, else by the completion
/// filter `completed`, `incomplete` or `all`.
pub open spec fn filter_param(c: CompletedFilter, show_in_progress: bool) -> Seq<char> {
    if show_in_progress {
        "in_progress"@
    } else {
        match c {
            CompletedFilter::ShowOnly => "completed"@,
            CompletedFilter::Hide => "incomplete"@,
            CompletedFilter::ShowAll => "all"@,
        }
    }
}

/// The filter word sent to the server: whenever the in-progress switch is on it is
/// `in_progress`, whatever the completion filter; with the switch off the three completion
/// filters send three different words, none of them `in_progress`, and "show all" sends
/// `all`.
pub proof fn lemma_filter_param_words(c: CompletedFilter, d: CompletedFilter)
    ensures
        filter_param(c, true) == "in_progress"@,
        filter_param(c, false) != "in_progress"@,
        filter_param(c, false) == filter_param(d, false) ==> c == d,
        filter_param(CompletedFilter::ShowAll, false) == "all"@,
        filter_param(CompletedFilter::ShowOnly, false) == "completed"@,
        filter_param(CompletedFilter::Hide, false) == "incomplete"@,
{
    reveal_strlit("in_progress");
    reveal_strlit("completed");
    reveal_strlit("incomplete");
    reveal_strlit("all");
    assert("in_progress"@.len() != "completed"@.len());
    assert("in_progress"@.len() != "incomplete"@.len());
    assert("in_progress"@.len() != "all"@.len());
    assert("completed"@.len() != "incomplete"@.len());
    assert("completed"@.len() != "all"@.len());
    assert("incomplete"@.len() != "all"@.len());
}

/// Maps the chips to the server's filter word.
pub fn completed_to_filter(c: CompletedFilter, show_in_progress: bool) -> (r: &'static str)
    ensures
        r@ == filter_param(c, show_in_progress),
{
    if show_in_progress {
        return "in_progress";
    }
    match c {
        CompletedFilter::ShowOnly => "completed",
        CompletedFilter::Hide => "incomplete",
        CompletedFilter::ShowAll => "all",
    }
}

/// The icon and chip style of the completion chip.
pub fn completed_filter_look(c: CompletedFilter) -> (r: (&'static str, &'static str))
    ensures
        c == CompletedFilter::ShowOnly ==> r.0@ == "ph-check-circle"@ && r.1@ == "is-active"@,
        c == CompletedFilter::Hide ==> r.0@ == "ph-x-circle"@ && r.1@ == "is-alert"@,
        c == CompletedFilter::ShowAll ==> r.0@ == "ph-circle"@ && r.1@ == ""@,
{
    match c {
        CompletedFilter::ShowOnly => ("ph-check-circle", "is-active"),
        CompletedFilter::Hide => ("ph-x-circle", "is-alert"),
        CompletedFilter::ShowAll => ("ph-circle", ""),
    }
}

/// The key under which a podcast's sort order is saved: `podcast_{id}`, or `episodes`
/// before the podcast is known.
pub fn sort_preference_key(podcast_id: i32) -> (r: String)
    ensures
        podcast_id > 0 ==> r@ == "podcast_"@ + decimal(podcast_id as int),
        podcast_id <= 0 ==> r@ == "episodes"@,
{
    if podcast_id > 0 {
        let mut out = chars_of("podcast_");
        append_chars(&mut out, &decimal_chars(podcast_id as i64));
        string_from_chars(&out)
    } else {
        "episodes".to_owned()
    }
}

/// The key under which a podcast's completion filter is saved.
pub fn completed_preference_key(podcast_id: i32) -> (r: String)
    ensures
        r@ == "podcast_"@ + decimal(podcast_id as int) + "_completed_filter"@,
{
    let mut out = chars_of("podcast_");
    append_chars(&mut out, &decimal_chars(podcast_id as i64));
    append_chars(&mut out, &chars_of("_completed_filter"));
    string_from_chars(&out)
}

// ---------------------------------------------------------------- settings inputs

/// The auto-delete days typed in: the number read, 0 when unreadable, never below 0.
pub fn auto_delete_days_input(text: &str) -> (r: i32)
    ensures
        match parse_i32_spec(text@) {
            Ok(v) => r == (if v < 0 { 0 } else { v }),
            Err(_) => r == 0,
        },
{
    match parse_i32(text) {
        Ok(v) => if v < 0 { 0 } else { v },
        Err(_) => 0,
    }
}

/// A number typed into a settings field, 0 when unreadable.
pub fn number_input_or_zero(text: &str) -> (r: i32)
    ensures
        match parse_i32_spec(text@) {
            Ok(v) => r == v,
            Err(_) => r == 0,
        },
{
    match parse_i32(text) {
        Ok(v) => v,
        Err(_) => 0,
    }
}

/// The silence threshold picked for trimming, 2 when the choice does not read as a number.
pub fn silence_threshold_input(text: &str) -> (r: i32)
    ensures
        match parse_i32_spec(text@) {
            Ok(v) => r == v,
            Err(_) => r == 2,
        },
{
    match parse_i32(text) {
        Ok(v) => v,
        Err(_) => 2,
    }
}

/// The podcast index id typed into the edit form, if it reads as a number.
pub fn podcast_index_id_input(text: &str) -> (r: Option<i32>)
    ensures
        match parse_i32_spec(text@) {
            Ok(v) => r == Some(v as i32),
            Err(_) => r is None,
        },
{
    match parse_i32(text) {
        Ok(v) => Some(v),
        Err(_) => None,
    }
}

/// The podcast's id when it is already known (a positive id).
pub fn known_podcast_id(id: Option<i32>) -> (r: Option<i32>)
    ensures
        r == (match id {
            Some(v) => if v > 0 { Some(v) } else { None },
            None => None,
        }),
{
    match id {
        Some(v) => if v > 0 { Some(v) } else { None },
        None => None,
    }
}

// ---------------------------------------------------------------- categories

/// The categories as one line: the names joined with `, ` in the order given.
pub fn categories_to_string(categories: &Option<Vec<String>>) -> (r: Option<String>)
    ensures
        match *categories {
            Some(v) => r matches Some(s) && s@ == joined(v@.map_values(|c: String| c@), ", "@),
            None => r is None,
        },
{
    match categories {
        Some(v) => Some(join_strings(v, ", ")),
        None => None,
    }
}

/// The categories left after one is removed: every entry whose name equals it goes.
pub fn remove_category(categories: &Vec<(String, String)>, category: &str) -> (r: Vec<(String, String)>)
    ensures
        r@.map_values(|e: (String, String)| (e.0@, e.1@)) == categories@.map_values(
            |e: (String, String)| (e.0@, e.1@),
        ).filter(|e: (Seq<char>, Seq<char>)| e.1 != category@),
{
    let ghost cv = categories@.map_values(|e: (String, String)| (e.0@, e.1@));
    let ghost pred = |e: (Seq<char>, Seq<char>)| e.1 != category@;
    let mut r: Vec<(String, String)> = Vec::new();
    let mut i: usize = 0;
    while i < categories.len()
        invariant
            i <= categories.len(),
            cv == categories@.map_values(|e: (String, String)| (e.0@, e.1@)),
            pred == (|e: (Seq<char>, Seq<char>)| e.1 != category@),
            r@.map_values(|e: (String, String)| (e.0@, e.1@)) == cv.take(i as int).filter(pred),
        decreases categories.len() - i,
    {
        reveal_with_fuel(Seq::filter, 1);
        assert(cv.take(i + 1).drop_last() =~= cv.take(i as int));
        let ghost before = r@.map_values(|e: (String, String)| (e.0@, e.1@));
        if !str_eq(categories[i].1.as_str(), category) {
            r.push((categories[i].0.clone(), categories[i].1.clone()));
            assert(r@.map_values(|e: (String, String)| (e.0@, e.1@)) =~= before.push(cv[i as int]));
        }
        i = i + 1;
    }
    assert(cv.take(categories.len() as int) =~= cv);
    r
}

// ---------------------------------------------------------------- editing the podcast

/// What the edit form holds, each field as typed.
#[derive(Clone, Debug, PartialEq, Eq)]
pub struct PodcastEditForm {
    pub feed_url: String,
    pub username: String,
    pub password: String,
    pub podcast_name: String,
    pub description: String,
    pub author: String,
    pub artwork_url: String,
    pub website_url: String,
    pub podcast_index_id: String,
}

/// The podcast as it is now, to which the form is compared.
#[derive(Clone, Debug, PartialEq, Eq)]
pub struct PodcastCurrentInfo {
    pub feed_url: String,
    pub podcast_name: String,
    pub description: String,
    pub author: String,
    pub artwork_url: String,
    pub website_url: String,
    pub podcast_index_id: i64,
}

/// The fields sent to the server; `None` leaves a field as it is.
#[derive(Clone, Debug, PartialEq, Eq)]
pub struct PodcastUpdate {
    pub feed_url: Option<String>,
    pub username: Option<String>,
    pub password: Option<String>,
    pub podcast_name: Option<String>,
    pub description: Option<String>,
    pub author: Option<String>,
    pub artwork_url: Option<String>,
    pub website_url: Option<String>,
    pub podcast_index_id: Option<i32>,
}

/// What saving the edit form does.
#[derive(Clone, Debug, PartialEq, Eq)]
pub enum PodcastEditPlan {
    /// The podcast has not loaded yet: nothing is sent.
    NotLoaded,
    /// No field would change: nothing is sent.
    NoChanges,
    /// These changes are sent.
    Send(PodcastUpdate),
}

/// A field that is sent only when it is not blank and differs from the current value.
pub open spec fn changed_text(typed: Seq<char>, current: Seq<char>) -> Option<Seq<char>> {
    if trimmed(typed).len() == 0 || typed == current {
        None
    } else {
        Some(typed)
    }
}

/// A field that is sent whenever it is not blank.
pub open spec fn given_text(typed: Seq<char>) -> Option<Seq<char>> {
    if trimmed(typed).len() == 0 {
        None
    } else {
        Some(typed)
    }
}

/// The index id is sent when it is not blank, differs from the current one as written, and
/// reads as a number.
pub open spec fn changed_index_id(typed: Seq<char>, current: int) -> Option<int> {
    if trimmed(typed).len() == 0 || typed == decimal(current) {
        None
    } else {
        match parse_i32_spec(typed) {
            Ok(v) => Some(v),
            Err(_) => None,
        }
    }
}

/// The update that a form gives against the current podcast.
pub open spec fn update_matches(u: PodcastUpdate, form: PodcastEditForm, current: PodcastCurrentInfo) -> bool {
    &&& opt_view(u.feed_url) == changed_text(form.feed_url@, current.feed_url@)
    &&& opt_view(u.username) == given_text(form.username@)
    &&& opt_view(u.password) == given_text(form.password@)
    &&& opt_view(u.podcast_name) == changed_text(form.podcast_name@, current.podcast_name@)
    &&& opt_view(u.description) == changed_text(form.description@, current.description@)
    &&& opt_view(u.author) == changed_text(form.author@, current.author@)
    &&& opt_view(u.artwork_url) == changed_text(form.artwork_url@, current.artwork_url@)
    &&& opt_view(u.website_url) == changed_text(form.website_url@, current.website_url@)
    &&& match u.podcast_index_id {
        Some(v) => changed_index_id(form.podcast_index_id@, current.podcast_index_id as int) == Some(v as int),
        None => changed_index_id(form.podcast_index_id@, current.podcast_index_id as int) is None,
    }
}

/// Whether the form changes no field of the podcast.
pub open spec fn form_changes_nothing(form: PodcastEditForm, current: PodcastCurrentInfo) -> bool {
    &&& changed_text(form.feed_url@, current.feed_url@) is None
    &&& given_text(form.username@) is None
    &&& given_text(form.password@) is None
    &&& changed_text(form.podcast_name@, current.podcast_name@) is None
    &&& changed_text(form.description@, current.description@) is None
    &&& changed_text(form.author@, current.author@) is None
    &&& changed_text(form.artwork_url@, current.artwork_url@) is None
    &&& changed_text(form.website_url@, current.website_url@) is None
    &&& changed_index_id(form.podcast_index_id@, current.podcast_index_id as int) is None
}

fn is_blank(s: &str) -> (r: bool)
    ensures
        r == (trimmed(s@).len() == 0),
{
    trim_chars(&chars_of(s)).len() == 0
}

fn changed_field(typed: &String, current: &String) -> (r: Option<String>)
    ensures
        opt_view(r) == changed_text(typed@, current@),
{
    if is_blank(typed.as_str()) || str_eq(typed.as_str(), current.as_str()) {
        None
    } else {
        Some(typed.clone())
    }
}

fn given_field(typed: &String) -> (r: Option<String>)
    ensures
        opt_view(r) == given_text(typed@),
{
    if is_blank(typed.as_str()) {
        None
    } else {
        Some(typed.clone())
    }
}

/// What saving the edit form of podcast `podcast_id` does: nothing before the podcast has
/// loaded (id 0); else the update of the fields that change, or nothing when none does.
pub fn plan_podcast_edit(podcast_id: i32, form: &PodcastEditForm, current: &PodcastCurrentInfo) -> (r: PodcastEditPlan)
    ensures
        podcast_id == 0 ==> r == PodcastEditPlan::NotLoaded,
        podcast_id != 0 ==> match r {
            PodcastEditPlan::NotLoaded => false,
            PodcastEditPlan::NoChanges => form_changes_nothing(*form, *current),
            PodcastEditPlan::Send(u) => update_matches(u, *form, *current) && !form_changes_nothing(*form, *current),
        },
{
    if podcast_id == 0 {
        return PodcastEditPlan::NotLoaded;
    }
    let index_text = string_from_chars(&decimal_chars(current.podcast_index_id));
    assert(index_text@ == decimal(current.podcast_index_id as int));
    let podcast_index_id: Option<i32> = if is_blank(form.podcast_index_id.as_str()) || str_eq(
        form.podcast_index_id.as_str(),
        index_text.as_str(),
    ) {
        None
    } else {
        match parse_i32(form.podcast_index_id.as_str()) {
            Ok(v) => Some(v),
            Err(_) => None,
        }
    };
    let u = PodcastUpdate {
        feed_url: changed_field(&form.feed_url, &current.feed_url),
        username: given_field(&form.username),
        password: given_field(&form.password),
        podcast_name: changed_field(&form.podcast_name, &current.podcast_name),
        description: changed_field(&form.description, &current.description),
        author: changed_field(&form.author, &current.author),
        artwork_url: changed_field(&form.artwork_url, &current.artwork_url),
        website_url: changed_field(&form.website_url, &current.website_url),
        podcast_index_id,
    };
    if u.feed_url.is_none() && u.username.is_none() && u.password.is_none() && u.podcast_name.is_none()
        && u.description.is_none() && u.author.is_none() && u.artwork_url.is_none() && u.website_url.is_none()
        && u.podcast_index_id.is_none() {
        PodcastEditPlan::NoChanges
    } else {
        PodcastEditPlan::Send(u)
    }
}

/// The form as the editor opens it: the podcast's current values, empty credentials, and the
/// index id written out.
pub open spec fn prefilled(form: PodcastEditForm, current: PodcastCurrentInfo) -> bool {
    &&& form.feed_url@ == current.feed_url@
    &&& form.username@.len() == 0
    &&& form.password@.len() == 0
    &&& form.podcast_name@ == current.podcast_name@
    &&& form.description@ == current.description@
    &&& form.author@ == current.author@
    &&& form.artwork_url@ == current.artwork_url@
    &&& form.website_url@ == current.website_url@
    &&& form.podcast_index_id@ == decimal(current.podcast_index_id as int)
}

/// Opens the edit form on the podcast's current values.
pub fn edit_form_for(current: &PodcastCurrentInfo) -> (r: PodcastEditForm)
    ensures
        prefilled(r, *current),
{
    PodcastEditForm {
        feed_url: current.feed_url.clone(),
        username: String::new(),
        password: String::new(),
        podcast_name: current.podcast_name.clone(),
        description: current.description.clone(),
        author: current.author.clone(),
        artwork_url: current.artwork_url.clone(),
        website_url: current.website_url.clone(),
        podcast_index_id: string_from_chars(&decimal_chars(current.podcast_index_id)),
    }
}

/// Saving the edit form as it opened changes nothing.
pub proof fn lemma_untouched_form_changes_nothing(form: PodcastEditForm, current: PodcastCurrentInfo)
    requires
        prefilled(form, current),
    ensures
        form_changes_nothing(form, current),
{
    assert(form.username@ =~= Seq::<char>::empty());
    assert(form.password@ =~= Seq::<char>::empty());
}

/// A typed value that is not blank and differs from the podcast's is sent as typed; a blank
/// one, or one equal to the podcast's, is not sent. Credentials are sent whenever they are
/// not blank.
pub proof fn lemma_changed_fields_sent(typed: Seq<char>, current: Seq<char>)
    ensures
        (exists|i: int| 0 <= i < typed.len() && !is_white_space(typed[i])) && typed != current
            ==> changed_text(typed, current) == Some(typed),
        typed == current ==> changed_text(typed, current) is None,
        (forall|i: int| 0 <= i < typed.len() ==> is_white_space(typed[i])) ==> changed_text(typed, current) is None
            && given_text(typed) is None,
        (exists|i: int| 0 <= i < typed.len() && !is_white_space(typed[i])) ==> given_text(typed) == Some(typed),
{
    lemma_trimmed_blank(typed);
}

/// Removing a podcast whose feed is a YouTube channel goes through the channel endpoint.
pub fn is_youtube_channel_feed(feed_url: &str) -> (r: bool)
    ensures
        r == starts_with_seq(feed_url@, "https://www.youtube.com"@),
{
    starts_with_chars(&chars_of(feed_url), &chars_of("https://www.youtube.com"))
}

// ---------------------------------------------------------------- episode status sync

/// Which loaded episodes still have to be entered into the status sets: `None` when the
/// count is unchanged; otherwise whether to start over (nothing synced yet, or fewer episodes
/// than before, i.e. another podcast) and from which position.
pub fn status_sync_plan(already_synced: usize, total_now: usize) -> (r: Option<(bool, usize)>)
    ensures
        total_now == already_synced ==> r is None,
        total_now != already_synced ==> (r matches Some((initial, from)) && initial == (already_synced == 0
            || total_now < already_synced) && from == (if initial { 0 } else { already_synced })),
{
    if total_now == already_synced {
        return None;
    }
    let initial = already_synced == 0 || total_now < already_synced;
    Some((initial, if initial { 0 } else { already_synced }))
}

/// Whether the server has more of the podcast's episodes than are loaded: some are loaded
/// and fewer than the server's total.
pub fn podcast_can_load_more(loaded: usize, backend_total: i64) -> (r: bool)
    ensures
        r == (loaded > 0 && loaded < backend_total),
{
    if loaded == 0 {
        false
    } else if backend_total <= 0 {
        false
    } else {
        (loaded as u64) < (backend_total as u64)
    }
}

/// The offset of the next page of the podcast's episodes: the number already loaded; none
/// while a fetch is under way.
pub fn podcast_next_page_offset(loading_more: bool, loaded: usize) -> (r: Option<i64>)
    requires
        loaded <= i64::MAX,
    ensures
        loading_more ==> r is None,
        !loading_more ==> r == Some(loaded as i64),
{
    if loading_more {
        None
    } else {
        Some(loaded as i64)
    }
}


// ---------------------------------------------------------------- RSS address

/// The podcast feed address of the server: the stored server address when there is one,
/// else the scheme and host of the page address (its first three `/`-separated pieces),
/// followed by `/rss`.
pub open spec fn rss_base(current_href: Seq<char>, stored_server: Option<Seq<char>>) -> Seq<char> {
    match stored_server {
        Some(server) => server + "/rss"@,
        None => {
            let pieces = split_at_char(current_href, '/');
            joined(pieces.take(if pieces.len() < 3 { pieces.len() as int } else { 3 }), "/"@) + "/rss"@
        },
    }
}

/// The RSS base address; `current_href` is the page address when it could be read.
pub fn rss_base_url(current_href: &Option<String>, stored_server: &Option<String>) -> (r: String)
    ensures
        r@ == rss_base(
            match *current_href {
                Some(h) => h@,
                None => "Unable to retrieve URL"@,
            },
            match *stored_server {
                Some(s) => Some(s@),
                None => None,
            },
        ),
{
    match stored_server {
        Some(server) => {
            let mut out = chars_of(server.as_str());
            append_chars(&mut out, &chars_of("/rss"));
            string_from_chars(&out)
        },
        None => {
            let href = match current_href {
                Some(h) => chars_of(h.as_str()),
                None => chars_of("Unable to retrieve URL"),
            };
            let pieces = split_chars(&href, '/');
            let n = if pieces.len() < 3 { pieces.len() } else { 3 };
            let mut first: Vec<Vec<char>> = Vec::new();
            let mut i: usize = 0;
            while i < n
                invariant
                    i <= n <= pieces.len(),
                    views(first@) == views(pieces@).take(i as int),
                decreases n - i,
            {
                let ghost before = views(first@);
                first.push(pieces[i].clone());
                assert(views(first@) =~= before.push(pieces@[i as int]@));
                assert(views(pieces@).take(i + 1) =~= views(pieces@).take(i as int).push(pieces@[i as int]@));
                i = i + 1;
            }
            let mut out = join_chars(&first, &chars_of("/"));
            append_chars(&mut out, &chars_of("/rss"));
            string_from_chars(&out)
        },
    }
}

// ---------------------------------------------------------------- description markup

/// What `ammonia::clean` returns for `html`: the fragment with everything not on ammonia's
/// default allow-lists removed.
pub uninterp spec fn ammonia_cleaned(html: Seq<char>) -> Seq<char>;

/// `ammonia::clean`: the result depends on the fragment alone and is named `ammonia_cleaned`;
/// ammonia's allow-lists and HTML parsing are not restated here.
#[verifier::external_body]
fn ammonia_clean(html: &str) -> (r: String)
    ensures
        r@ == ammonia_cleaned(html@),
{
    ammonia::clean(html)
}

/// What `htmlentity::entity::decode(bytes).to_string()` returns for the UTF-8 bytes of `s`:
/// the text with its HTML character references decoded, or `None` when that fails.
pub uninterp spec fn entities_decoded(s: Seq<char>) -> Option<Seq<char>>;

/// `htmlentity::entity::decode` followed by `ICodedDataTrait::to_string`: the outcome
/// depends on the text alone and is named `entities_decoded`; the entity tables are not
/// restated here.
#[verifier::external_body]
fn decode_html_entities(s: &str) -> (r: Option<String>)
    ensures
        match r {
            Some(t) => entities_decoded(s@) == Some(t@),
            None => entities_decoded(s@) is None,
        },
{
    let decoded = htmlentity::entity::decode(s.as_bytes());
    match ICodedDataTrait::to_string(&decoded) {
        Ok(t) => Some(t),
        Err(_) => None,
    }
}

/// A podcast description made safe to show: cleaned by ammonia, then its character
/// references decoded; a fixed message when decoding fails.
pub fn sanitize_html(html: &str) -> (r: String)
    ensures
        match entities_decoded(ammonia_cleaned(html@)) {
            Some(t) => r@ == t,
            None => r@ == "Invalid HTML content"@,
        },
{
    let cleaned = ammonia_clean(html);
    match decode_html_entities(cleaned.as_str()) {
        Some(t) => t,
        None => "Invalid HTML content".to_owned(),
    }
}

/// Whether `char::is_alphanumeric` holds of `c` (Unicode `Alphabetic` or `Numeric`).
pub uninterp spec fn alphanumeric(c: char) -> bool;

/// `char::is_alphanumeric` (std): the answer depends on the character alone and is named
/// `alphanumeric`; the Unicode tables are not restated here.
#[verifier::external_body]
fn char_is_alphanumeric(c: char) -> (r: bool)
    ensures
        r == alphanumeric(c),
{
    c.is_alphanumeric()
}

/// `s` with every character that is not alphanumeric replaced by `-`.
pub open spec fn dashed(s: Seq<char>) -> Seq<char> {
    s.map_values(|c: char| if alphanumeric(c) { c } else { '-' })
}

/// The element id of a podcast's description: `desc-` and the name with every character
/// that is not alphanumeric turned into `-`.
pub fn description_element_id(podcast_name: &str) -> (r: String)
    ensures
        r@ == "desc-"@ + dashed(podcast_name@),
{
    let name = chars_of(podcast_name);
    let mut out = chars_of("desc-");
    let ghost start = out@;
    let mut i: usize = 0;
    while i < name.len()
        invariant
            i <= name.len(),
            start == "desc-"@,
            out@ == start + dashed(name@.take(i as int)),
        decreases name.len() - i,
    {
        let c = name[i];
        if char_is_alphanumeric(c) {
            out.push(c);
        } else {
            out.push('-');
        }
        assert(dashed(name@.take(i + 1)) =~= dashed(name@.take(i as int)).push(if alphanumeric(c) { c } else { '-' }));
        i = i + 1;
    }
    assert(name@.take(name.len() as int) =~= name@);
    string_from_chars(&out)
}


// ---------------------------------------------------------------- labels and keys

/// The private feed of one podcast: `{base}/{user id}?api_key={key}&podcast_id={id}`, with
/// user 0 when no user is known.
pub fn rss_feed_url(base: &str, user_id: Option<i32>, rss_key: &str, podcast_id: i32) -> (r: String)
    ensures
        r@ == base@ + "/"@ + decimal(
            match user_id {
                Some(u) => u as int,
                None => 0,
            },
        ) + "?api_key="@ + rss_key@ + "&podcast_id="@ + decimal(podcast_id as int),
{
    let uid: i32 = match user_id {
        Some(u) => u,
        None => 0,
    };
    let mut out = chars_of(base);
    out.push('/');
    append_chars(&mut out, &decimal_chars(uid as i64));
    append_chars(&mut out, &chars_of("?api_key="));
    append_chars(&mut out, &chars_of(rss_key));
    append_chars(&mut out, &chars_of("&podcast_id="));
    append_chars(&mut out, &decimal_chars(podcast_id as i64));
    proof {
        reveal_strlit("/");
    }
    string_from_chars(&out)
}

/// The name shown for a merged podcast: its name once fetched, else `Podcast ID {id}`.
pub fn merged_podcast_label(name: &Option<String>, podcast_id: i32) -> (r: String)
    ensures
        r@ == match name {
            Some(n) => n@,
            None => "Podcast ID "@ + decimal(podcast_id as int),
        },
{
    match name {
        Some(n) => n.clone(),
        None => {
            let mut out = chars_of("Podcast ID ");
            append_chars(&mut out, &decimal_chars(podcast_id as i64));
            string_from_chars(&out)
        },
    }
}

/// The merge button: `Merge {n} Podcasts`.
pub fn merge_button_label(selected: usize) -> (r: String)
    ensures
        r@ == "Merge "@ + decimal(selected as int) + " Podcasts"@,
{
    let mut out = chars_of("Merge ");
    append_chars(&mut out, &digits_chars(selected as u64));
    append_chars(&mut out, &chars_of(" Podcasts"));
    string_from_chars(&out)
}

/// `{n} episode selected` or `{n} episodes selected`, by the number of episodes picked.
pub fn selected_episodes_label(selected: usize) -> (r: String)
    ensures
        r@ == decimal(selected as int) + if selected == 1 {
            " episode selected"@
        } else {
            " episodes selected"@
        },
{
    let mut out = digits_chars(selected as u64);
    if selected == 1 {
        append_chars(&mut out, &chars_of(" episode selected"));
    } else {
        append_chars(&mut out, &chars_of(" episodes selected"));
    }
    string_from_chars(&out)
}

/// The one-letter code of a sort order in the list's key; `_` for none.
pub open spec fn sort_code(d: Option<EpisodeSortDirection>) -> char {
    match d {
        Some(EpisodeSortDirection::NewestFirst) => 'n',
        Some(EpisodeSortDirection::OldestFirst) => 'o',
        Some(EpisodeSortDirection::ShortestFirst) => 's',
        Some(EpisodeSortDirection::LongestFirst) => 'l',
        Some(EpisodeSortDirection::TitleAZ) => 'a',
        Some(EpisodeSortDirection::TitleZA) => 'z',
        None => '_',
    }
}

/// The one-letter code of a completion filter in the list's key.
pub open spec fn filter_code(c: CompletedFilter) -> char {
    match c {
        CompletedFilter::ShowAll => 'a',
        CompletedFilter::ShowOnly => 'c',
        CompletedFilter::Hide => 'h',
    }
}

/// The text of the episode list's key.
pub open spec fn list_view_key(
    podcast_id: int,
    sort: Option<EpisodeSortDirection>,
    filter: CompletedFilter,
    show_in_progress: bool,
) -> Seq<char> {
    "elv-"@ + decimal(podcast_id) + seq!['-', sort_code(sort), '-', filter_code(filter), '-'] + bool_text(
        show_in_progress,
    )
}

/// For one podcast, the list's key tells every order, completion filter and in-progress
/// setting apart: two settings give the same key only when they are the same, so changing
/// any of them rebuilds the list.
pub proof fn lemma_list_view_key_distinguishes(
    podcast_id: int,
    s1: Option<EpisodeSortDirection>,
    f1: CompletedFilter,
    b1: bool,
    s2: Option<EpisodeSortDirection>,
    f2: CompletedFilter,
    b2: bool,
)
    ensures
        list_view_key(podcast_id, s1, f1, b1) == list_view_key(podcast_id, s2, f2, b2) <==> (s1 == s2 && f1
            == f2 && b1 == b2),
{
    let k1 = list_view_key(podcast_id, s1, f1, b1);
    let k2 = list_view_key(podcast_id, s2, f2, b2);
    reveal_strlit("elv-");
    let n: int = 4 + decimal(podcast_id).len() as int;
    if k1 == k2 {
        assert(k1[n + 1] == sort_code(s1));
        assert(k2[n + 1] == sort_code(s2));
        assert(k1[n + 3] == filter_code(f1));
        assert(k2[n + 3] == filter_code(f2));
        assert(k1.len() == n + 5 + bool_text(b1).len());
        assert(k2.len() == n + 5 + bool_text(b2).len());
    }
}

/// The key of the episode list, `elv-{podcast}-{sort}-{filter}-{in progress}`, under which
/// the list is rebuilt when the podcast, the order, the filter or the in-progress switch
/// changes.
pub fn episode_list_view_key(
    podcast_id: i32,
    sort: Option<EpisodeSortDirection>,
    filter: CompletedFilter,
    show_in_progress: bool,
) -> (r: String)
    ensures
        r@ == list_view_key(podcast_id as int, sort, filter, show_in_progress),
{
    let s: char = match sort {
        Some(EpisodeSortDirection::NewestFirst) => 'n',
        Some(EpisodeSortDirection::OldestFirst) => 'o',
        Some(EpisodeSortDirection::ShortestFirst) => 's',
        Some(EpisodeSortDirection::LongestFirst) => 'l',
        Some(EpisodeSortDirection::TitleAZ) => 'a',
        Some(EpisodeSortDirection::TitleZA) => 'z',
        None => '_',
    };
    let f: char = match filter {
        CompletedFilter::ShowAll => 'a',
        CompletedFilter::ShowOnly => 'c',
        CompletedFilter::Hide => 'h',
    };
    let mut out = chars_of("elv-");
    append_chars(&mut out, &decimal_chars(podcast_id as i64));
    let ghost mid = out@;
    out.push('-');
    out.push(s);
    out.push('-');
    out.push(f);
    out.push('-');
    assert(out@ =~= mid + seq!['-', sort_code(sort), '-', filter_code(filter), '-']);
    append_chars(&mut out, &bool_chars(show_in_progress));
    string_from_chars(&out)
}

} // verus!
