//! The listening history page: its sort choices, search, status filter chips and order.

use vstd::prelude::*;

use crate::episodes::{copy_episode, Episode};
use crate::sort::{is_stable_order, key_view, key_views, lists, stable_sort_order, KeyView, SortKey};
use crate::text::{chars_of, contains_chars, contains_seq, lowercased, str_eq, to_lowercase};

verus! {

/// The orders the history can be shown in.
#[derive(Clone, Copy, Debug, PartialEq, Eq, Structural)]
pub enum HistorySortDirection {
    NewestFirst,
    OldestFirst,
    ShortestFirst,
    LongestFirst,
    TitleAZ,
    TitleZA,
}

/// The word under which an order is saved and offered in the sort menu.
pub open spec fn sort_word(d: HistorySortDirection) -> Seq<char> {
    match d {
        HistorySortDirection::NewestFirst => "newest"@,
        HistorySortDirection::OldestFirst => "oldest"@,
        HistorySortDirection::ShortestFirst => "shortest"@,
        HistorySortDirection::LongestFirst => "longest"@,
        HistorySortDirection::TitleAZ => "title_az"@,
        HistorySortDirection::TitleZA => "title_za"@,
    }
}

/// `s` is the word of some order.
pub open spec fn names_an_order(s: Seq<char>) -> bool {
    exists|d: HistorySortDirection| sort_word(d) == s
}

/// The order named by a menu value, if it names one.
pub fn history_sort_from_choice(value: &str) -> (r: Option<HistorySortDirection>)
    ensures
        r matches Some(d) ==> sort_word(d) == value@,
        r is None ==> forall|d: HistorySortDirection| sort_word(d) != value@,
{
    if str_eq(value, "newest") {
        Some(HistorySortDirection::NewestFirst)
    } else if str_eq(value, "oldest") {
        Some(HistorySortDirection::OldestFirst)
    } else if str_eq(value, "shortest") {
        Some(HistorySortDirection::ShortestFirst)
    } else if str_eq(value, "longest") {
        Some(HistorySortDirection::LongestFirst)
    } else if str_eq(value, "title_az") {
        Some(HistorySortDirection::TitleAZ)
    } else if str_eq(value, "title_za") {
        Some(HistorySortDirection::TitleZA)
    } else {
        None
    }
}

/// A saved history order is read back as itself: its word names an order, and the only
/// order with that word is the one saved.
pub proof fn lemma_history_sort_restored(saved: HistorySortDirection, read: HistorySortDirection)
    ensures
        names_an_order(sort_word(saved)),
        sort_word(read) == sort_word(saved) ==> read == saved,
{
    reveal_strlit("newest");
    reveal_strlit("oldest");
    reveal_strlit("shortest");
    reveal_strlit("longest");
    reveal_strlit("title_az");
    reveal_strlit("title_za");
    if sort_word(read) == sort_word(saved) {
        assert(sort_word(read)[0] == sort_word(saved)[0]);
        assert(sort_word(read).len() < 8 || sort_word(read)[7] == sort_word(saved)[7]);
    }
}

/// The order the page opens with: the saved one, newest first when none or an unknown one
/// is saved.
pub fn history_sort_from_preference(saved: &Option<String>) -> (r: HistorySortDirection)
    ensures
        (saved matches Some(s) && names_an_order(s@)) ==> sort_word(r) == saved->0@,
        !(saved matches Some(s) && names_an_order(s@)) ==> r == HistorySortDirection::NewestFirst,
{
    match saved {
        Some(s) => match history_sort_from_choice(s.as_str()) {
            Some(d) => d,
            None => HistorySortDirection::NewestFirst,
        },
        None => HistorySortDirection::NewestFirst,
    }
}

/// The two mutually meant status chips of an episode list.
#[derive(Clone, Copy, Debug, PartialEq, Eq, Structural)]
pub struct StatusChips {
    pub show_completed: bool,
    pub show_in_progress: bool,
}

/// The history's "Completed" chip: flips itself, and turns "In progress" off only when
/// "Completed" was on before the click.
pub fn history_press_completed(c: StatusChips) -> (r: StatusChips)
    ensures
        r.show_completed == !c.show_completed,
        r.show_in_progress == (if c.show_completed { false } else { c.show_in_progress }),
{
    StatusChips {
        show_completed: !c.show_completed,
        show_in_progress: if c.show_completed { false } else { c.show_in_progress },
    }
}

/// The history's "In progress" chip: flips itself, and turns "Completed" off only when
/// "In progress" was on before the click.
pub fn history_press_in_progress(c: StatusChips) -> (r: StatusChips)
    ensures
        r.show_in_progress == !c.show_in_progress,
        r.show_completed == (if c.show_in_progress { false } else { c.show_completed }),
{
    StatusChips {
        show_completed: if c.show_in_progress { false } else { c.show_completed },
        show_in_progress: !c.show_in_progress,
    }
}

/// After a click on the history's "Completed" chip the two chips are not both on, except
/// when the click turns "Completed" on while "In progress" is on (that chip then stays on).
pub proof fn lemma_history_completed_chip_exclusive(c: StatusChips, after: StatusChips)
    requires
        after.show_completed == !c.show_completed,
        after.show_in_progress == (if c.show_completed { false } else { c.show_in_progress }),
        !(!c.show_completed && c.show_in_progress),
    ensures
        !(after.show_completed && after.show_in_progress),
{
}

/// After a click on the history's "In progress" chip the two chips are not both on, except
/// when the click turns "In progress" on while "Completed" is on (that chip then stays on).
pub proof fn lemma_history_in_progress_chip_exclusive(c: StatusChips, after: StatusChips)
    requires
        after.show_in_progress == !c.show_in_progress,
        after.show_completed == (if c.show_in_progress { false } else { c.show_completed }),
        !(c.show_completed && !c.show_in_progress),
    ensures
        !(after.show_completed && after.show_in_progress),
{
}

/// "Clear all": both chips off (the search is cleared with them).
pub fn clear_status_chips() -> (r: StatusChips)
    ensures
        !r.show_completed && !r.show_in_progress,
{
    StatusChips { show_completed: false, show_in_progress: false }
}

/// The search matches an episode: no search, or the lowercased search occurs in the
/// lowercased title or description.
pub open spec fn matches_search(e: Episode, search: Seq<char>) -> bool {
    ||| search.len() == 0
    ||| contains_seq(lowercased(e.episodetitle@), lowercased(search))
    ||| contains_seq(lowercased(e.episodedescription@), lowercased(search))
}

/// The status chips let an episode through: "Completed" wins over "In progress".
pub open spec fn matches_status(e: Episode, chips: StatusChips) -> bool {
    if chips.show_completed {
        e.completed
    } else if chips.show_in_progress {
        e.listenduration > 0 && !e.completed
    } else {
        true
    }
}

/// The history episodes the search and chips let through, in list order.
pub open spec fn history_filtered(es: Seq<Episode>, search: Seq<char>, chips: StatusChips) -> Seq<Episode> {
    es.filter(|e: Episode| matches_search(e, search) && matches_status(e, chips))
}

/// What an episode is ordered by.
pub open spec fn history_key(e: Episode, d: HistorySortDirection) -> KeyView {
    match d {
        HistorySortDirection::NewestFirst | HistorySortDirection::OldestFirst => (
            true,
            match e.listendate {
                Some(s) => s@,
                None => Seq::<char>::empty(),
            },
            0,
        ),
        HistorySortDirection::ShortestFirst | HistorySortDirection::LongestFirst => (
            false,
            Seq::<char>::empty(),
            e.episodeduration as int,
        ),
        HistorySortDirection::TitleAZ | HistorySortDirection::TitleZA => (true, e.episodetitle@, 0),
    }
}

/// Whether an order runs from the largest key down.
pub open spec fn is_descending(d: HistorySortDirection) -> bool {
    d == HistorySortDirection::NewestFirst || d == HistorySortDirection::LongestFirst || d
        == HistorySortDirection::TitleZA
}

/// The keys of a list of episodes.
pub open spec fn history_keys(es: Seq<Episode>, d: HistorySortDirection) -> Seq<KeyView> {
    es.map_values(|e: Episode| history_key(e, d))
}

/// `r` lists the elements of `es` in the order `p`.
pub open spec fn arranged<T>(es: Seq<T>, p: Seq<usize>, r: Seq<T>) -> bool {
    r.len() == p.len() && forall|k: int| 0 <= k < r.len() ==> #[trigger] r[k] == es[p[k] as int]
}

/// `r` is `es` in the stable order of direction `d`.
pub open spec fn sorted_history(es: Seq<Episode>, d: HistorySortDirection, r: Seq<Episode>) -> bool {
    exists|p: Seq<usize>|
        #[trigger] is_stable_order(history_keys(es, d), is_descending(d), p)
            && arranged(es, p, r)
}

fn history_sort_key(e: &Episode, d: HistorySortDirection) -> (k: SortKey)
    ensures
        key_view(k) == history_key(*e, d),
{
    match d {
        HistorySortDirection::NewestFirst | HistorySortDirection::OldestFirst => match &e.listendate {
            Some(s) => SortKey::Text(chars_of(s.as_str())),
            None => SortKey::Text(Vec::new()),
        },
        HistorySortDirection::ShortestFirst | HistorySortDirection::LongestFirst => SortKey::Number(
            e.episodeduration as i64,
        ),
        HistorySortDirection::TitleAZ | HistorySortDirection::TitleZA => SortKey::Text(
            chars_of(e.episodetitle.as_str()),
        ),
    }
}

fn episode_matches(e: &Episode, lowered_search: &Vec<char>, search_empty: bool, chips: StatusChips) -> (r: bool)
    requires
        search_empty ==> lowered_search@.len() == 0,
    ensures
        r == (matches_status(*e, chips) && (search_empty || contains_seq(lowercased(e.episodetitle@), lowered_search@)
            || contains_seq(lowercased(e.episodedescription@), lowered_search@))),
{
    let status = if chips.show_completed {
        e.completed
    } else if chips.show_in_progress {
        e.listenduration > 0 && !e.completed
    } else {
        true
    };
    if !status {
        return false;
    }
    if search_empty {
        return true;
    }
    let title = to_lowercase(e.episodetitle.as_str());
    if contains_chars(&chars_of(title.as_str()), lowered_search) {
        return true;
    }
    let desc = to_lowercase(e.episodedescription.as_str());
    contains_chars(&chars_of(desc.as_str()), lowered_search)
}

/// The history as shown: filtered by the search and the chips, then ordered (stably) by
/// the chosen direction; in list order when no direction is chosen.
pub fn filter_and_sort_history(
    es: &Vec<Episode>,
    search: &str,
    sort: Option<HistorySortDirection>,
    chips: StatusChips,
) -> (r: Vec<Episode>)
    ensures
        sort is None ==> r@ == history_filtered(es@, search@, chips),
        sort matches Some(d) ==> sorted_history(history_filtered(es@, search@, chips), d, r@),
        history_shown(es@, search@, sort, chips, r@),
{
    let search_empty = search.is_empty();
    let lowered = if search_empty {
        Vec::new()
    } else {
        chars_of(to_lowercase(search).as_str())
    };
    let ghost pred = |e: Episode| matches_search(e, search@) && matches_status(e, chips);
    let mut kept: Vec<Episode> = Vec::new();
    let mut i: usize = 0;
    while i < es.len()
        invariant
            i <= es.len(),
            search_empty == (search@.len() == 0),
            !search_empty ==> lowered@ == lowercased(search@),
            search_empty ==> lowered@.len() == 0,
            pred == (|e: Episode| matches_search(e, search@) && matches_status(e, chips)),
            kept@ == es@.take(i as int).filter(pred),
        decreases es.len() - i,
    {
        reveal_with_fuel(Seq::filter, 1);
        assert(es@.take(i + 1).drop_last() =~= es@.take(i as int));
        if episode_matches(&es[i], &lowered, search_empty, chips) {
            kept.push(copy_episode(&es[i]));
        }
        i = i + 1;
    }
    assert(es@.take(es.len() as int) =~= es@);
    let d = match sort {
        None => {
            return kept;
        },
        Some(d) => d,
    };
    let ghost f = kept@;
    let mut keys: Vec<SortKey> = Vec::new();
    let mut j: usize = 0;
    while j < kept.len()
        invariant
            j <= kept.len(),
            keys.len() == j,
            forall|k: int| 0 <= k < j ==> key_view(#[trigger] keys@[k]) == history_key(kept@[k], d),
        decreases kept.len() - j,
    {
        keys.push(history_sort_key(&kept[j], d));
        j = j + 1;
    }
    assert(key_views(keys@) =~= history_keys(kept@, d));
    let descending = match d {
        HistorySortDirection::NewestFirst | HistorySortDirection::LongestFirst | HistorySortDirection::TitleZA => true,
        _ => false,
    };
    let p = stable_sort_order(&keys, descending);
    let mut out: Vec<Episode> = Vec::new();
    let mut k: usize = 0;
    while k < p.len()
        invariant
            k <= p.len(),
            p.len() == kept.len(),
            forall|m: int| 0 <= m < p.len() ==> p[m] < kept.len(),
            out.len() == k,
            forall|m: int| 0 <= m < k ==> #[trigger] out@[m] == kept@[p[m] as int],
        decreases p.len() - k,
    {
        out.push(copy_episode(&kept[p[k]]));
        k = k + 1;
    }
    assert(sorted_history(kept@, d, out@)) by {
        assert(is_stable_order(history_keys(kept@, d), is_descending(d), p@));
        assert(arranged(kept@, p@, out@));
    }
    out
}


/// The history as shown for a search, a direction and the chips: the filtered history, in
/// list order without a direction and in a stable order of that direction otherwise.
pub open spec fn history_shown(
    es: Seq<Episode>,
    search: Seq<char>,
    sort: Option<HistorySortDirection>,
    chips: StatusChips,
    shown: Seq<Episode>,
) -> bool {
    match sort {
        None => shown == history_filtered(es, search, chips),
        Some(d) => sorted_history(history_filtered(es, search, chips), d, shown),
    }
}

/// The shown history holds exactly the elements of the filtered history.
proof fn lemma_shown_members(
    es: Seq<Episode>,
    search: Seq<char>,
    sort: Option<HistorySortDirection>,
    chips: StatusChips,
    shown: Seq<Episode>,
)
    requires
        history_shown(es, search, sort, chips, shown),
    ensures
        forall|x: Episode| shown.contains(x) <==> history_filtered(es, search, chips).contains(x),
{
    let f = history_filtered(es, search, chips);
    if let Some(d) = sort {
        let p = choose|p: Seq<usize>| #[trigger] is_stable_order(history_keys(f, d), is_descending(d), p)
            && arranged(f, p, shown);
        assert forall|x: Episode| shown.contains(x) <==> f.contains(x) by {
            if shown.contains(x) {
                let k = choose|k: int| 0 <= k < shown.len() && shown[k] == x;
                assert(shown[k] == f[p[k] as int]);
            }
            if f.contains(x) {
                let j = choose|j: int| 0 <= j < f.len() && f[j] == x;
                assert(lists(p, j));
                let k = choose|k: int| 0 <= k < p.len() && p[k] as int == j;
                assert(shown[k] == f[p[k] as int]);
            }
        }
    }
}

/// An episode of the history is shown when its title or its description contains the
/// search, ignoring case (or the search is empty), and the chips let it through: with
/// "Completed" on it is completed, with only "In progress" on it is started and not
/// completed.
pub proof fn lemma_history_match_shown(
    es: Seq<Episode>,
    search: Seq<char>,
    sort: Option<HistorySortDirection>,
    chips: StatusChips,
    shown: Seq<Episode>,
    i: int,
)
    requires
        history_shown(es, search, sort, chips, shown),
        0 <= i < es.len(),
        search.len() == 0 || contains_seq(lowercased(es[i].episodetitle@), lowercased(search))
            || contains_seq(lowercased(es[i].episodedescription@), lowercased(search)),
        chips.show_completed ==> es[i].completed,
        !chips.show_completed && chips.show_in_progress ==> es[i].listenduration > 0 && !es[i].completed,
    ensures
        shown.contains(es[i]),
{
    broadcast use vstd::seq_lib::group_filter_ensures;

    lemma_shown_members(es, search, sort, chips, shown);
    assert(history_filtered(es, search, chips).contains(es[i]));
}

/// Every episode shown comes from the history, contains the search in its title or
/// description ignoring case (unless the search is empty), and passes the chips.
pub proof fn lemma_history_shown_match(
    es: Seq<Episode>,
    search: Seq<char>,
    sort: Option<HistorySortDirection>,
    chips: StatusChips,
    shown: Seq<Episode>,
    x: Episode,
)
    requires
        history_shown(es, search, sort, chips, shown),
        shown.contains(x),
    ensures
        es.contains(x),
        search.len() == 0 || contains_seq(lowercased(x.episodetitle@), lowercased(search))
            || contains_seq(lowercased(x.episodedescription@), lowercased(search)),
        chips.show_completed ==> x.completed,
        !chips.show_completed && chips.show_in_progress ==> x.listenduration > 0 && !x.completed,
{
    broadcast use vstd::seq_lib::group_filter_ensures;

    lemma_shown_members(es, search, sort, chips, shown);
    let f = history_filtered(es, search, chips);
    assert(f.contains(x));
    let j = choose|j: int| 0 <= j < f.len() && f[j] == x;
    assert(f[j] == x);
    lemma_filter_subset(es, |e: Episode| matches_search(e, search) && matches_status(e, chips), x);
}

proof fn lemma_filter_subset(s: Seq<Episode>, pred: spec_fn(Episode) -> bool, x: Episode)
    requires
        s.filter(pred).contains(x),
    ensures
        s.contains(x),
    decreases s.len(),
{
    reveal_with_fuel(Seq::filter, 1);
    if s.len() > 0 {
        let rest = s.drop_last().filter(pred);
        if pred(s.last()) {
            assert(s.filter(pred) == rest.push(s.last()));
            if x != s.last() {
                let k = choose|k: int| 0 <= k < s.filter(pred).len() && s.filter(pred)[k] == x;
                assert(rest[k] == x);
                lemma_filter_subset(s.drop_last(), pred, x);
                let m = choose|m: int| 0 <= m < s.drop_last().len() && s.drop_last()[m] == x;
                assert(s[m] == x);
            } else {
                assert(s[s.len() - 1] == x);
            }
        } else {
            assert(s.filter(pred) == rest);
            lemma_filter_subset(s.drop_last(), pred, x);
            let m = choose|m: int| 0 <= m < s.drop_last().len() && s.drop_last()[m] == x;
            assert(s[m] == x);
        }
    }
}
} // verus!
