//! The downloads page: its filter vocabulary, status chips, and the paged episode list kept
//! for each downloaded podcast.

use vstd::prelude::*;

use crate::episodes::{copy_episode, Episode};
use crate::history::StatusChips;
use crate::text::{append_chars, chars_of, decimal, decimal_chars, string_from_chars};

verus! {

/// The filter word the download endpoints understand for the two status chips.
pub open spec fn filter_word(show_completed: bool, show_in_progress: bool) -> Seq<char> {
    if show_completed {
        "completed"@
    } else if show_in_progress {
        "in_progress"@
    } else {
        "all"@
    }
}

/// The downloads filter word: `completed` whenever the "Completed" chip is on,
/// `in_progress` when only "In progress" is on, `all` with neither; the three are different.
pub proof fn lemma_downloads_filter_words(show_in_progress: bool)
    ensures
        filter_word(true, show_in_progress) == "completed"@,
        filter_word(false, true) == "in_progress"@,
        filter_word(false, false) == "all"@,
        "completed"@ != "in_progress"@ && "completed"@ != "all"@ && "in_progress"@ != "all"@,
{
    reveal_strlit("completed");
    reveal_strlit("in_progress");
    reveal_strlit("all");
    assert("completed"@.len() != "in_progress"@.len());
    assert("completed"@.len() != "all"@.len());
    assert("in_progress"@.len() != "all"@.len());
}

/// The backend filter for the downloads list: `completed`, `in_progress` or `all`.
pub fn downloads_filter(show_completed: bool, show_in_progress: bool) -> (r: &'static str)
    ensures
        r@ == filter_word(show_completed, show_in_progress),
{
    if show_completed {
        "completed"
    } else if show_in_progress {
        "in_progress"
    } else {
        "all"
    }
}

/// The downloads page's "Completed" chip: flips itself and turns "In progress" off.
pub fn downloads_press_completed(c: StatusChips) -> (r: StatusChips)
    ensures
        r.show_completed == !c.show_completed,
        !r.show_in_progress,
{
    StatusChips { show_completed: !c.show_completed, show_in_progress: false }
}

/// The downloads page's "In progress" chip: flips itself and turns "Completed" off.
pub fn downloads_press_in_progress(c: StatusChips) -> (r: StatusChips)
    ensures
        r.show_in_progress == !c.show_in_progress,
        !r.show_completed,
{
    StatusChips { show_completed: false, show_in_progress: !c.show_in_progress }
}

/// On the downloads page the two chips are never on together after a click.
pub proof fn lemma_downloads_chips_exclusive(c: StatusChips, completed: StatusChips, in_progress: StatusChips)
    requires
        completed.show_completed == !c.show_completed,
        !completed.show_in_progress,
        in_progress.show_in_progress == !c.show_in_progress,
        !in_progress.show_completed,
    ensures
        !(completed.show_completed && completed.show_in_progress),
        !(in_progress.show_completed && in_progress.show_in_progress),
{
}

/// What expanding or collapsing a podcast does: the new expansion, and whether its first
/// page of episodes must be fetched (on the first expansion only).
pub fn toggle_podcast_expanded(currently_expanded: bool, has_loaded_state: bool) -> (r: (bool, bool))
    ensures
        r.0 == !currently_expanded,
        r.1 == (!currently_expanded && !has_loaded_state),
{
    let expanded = !currently_expanded;
    (expanded, expanded && !has_loaded_state)
}

/// The loaded episodes of one downloaded podcast.
#[derive(Clone, Debug, PartialEq, Eq)]
pub struct PodcastEpisodeState {
    pub episodes: Vec<Episode>,
    /// Where the next page starts.
    pub offset: i64,
    /// How many matching episodes the server has.
    pub total: i64,
    pub loading_more: bool,
}

impl PodcastEpisodeState {
    /// The next page starts after the loaded episodes.
    pub open spec fn wf(&self) -> bool {
        self.offset == self.episodes@.len() as i64
    }

    /// Nothing loaded yet.
    pub fn new() -> (r: Self)
        ensures
            r.episodes@.len() == 0,
            r.offset == 0,
            r.total == 0,
            !r.loading_more,
            r.wf(),
    {
        PodcastEpisodeState { episodes: Vec::new(), offset: 0, total: 0, loading_more: false }
    }

    /// The state while the first page is being fetched.
    pub fn loading_first_page() -> (r: Self)
        ensures
            r.episodes@.len() == 0,
            r.offset == 0,
            r.total == 0,
            r.loading_more,
            r.wf(),
    {
        PodcastEpisodeState { episodes: Vec::new(), offset: 0, total: 0, loading_more: true }
    }

    /// The state once the first page has arrived.
    pub fn from_first_page(page: Vec<Episode>, total: i64) -> (r: Self)
        ensures
            r.episodes@ == page@,
            r.offset == page@.len() as i64,
            r.total == total,
            !r.loading_more,
            r.wf(),
    {
        let offset = page.len() as i64;
        PodcastEpisodeState { episodes: page, offset, total, loading_more: false }
    }

    /// Starts fetching the next page; `None` when a fetch is already under way.
    pub fn begin_load_more(&mut self) -> (r: Option<i64>)
        ensures
            old(self).loading_more ==> r is None && *final(self) == *old(self),
            !old(self).loading_more ==> r == Some(old(self).offset) && final(self).loading_more
                && final(self).episodes == old(self).episodes && final(self).offset == old(self).offset
                && final(self).total == old(self).total,
            old(self).wf() ==> final(self).wf(),
    {
        if self.loading_more {
            return None;
        }
        self.loading_more = true;
        Some(self.offset)
    }

    /// A fetched page is appended; the next page starts after everything loaded.
    pub fn append_page(&mut self, page: Vec<Episode>, total: i64)
        ensures
            final(self).episodes@ == old(self).episodes@ + page@,
            final(self).offset == (old(self).episodes@.len() + page@.len()) as i64,
            final(self).total == total,
            !final(self).loading_more,
            final(self).wf(),
    {
        let mut page = page;
        let ghost before = self.episodes@;
        let ghost added = page@;
        self.episodes.append(&mut page);
        self.offset = self.episodes.len() as i64;
        self.total = total;
        self.loading_more = false;
    }

    /// A fetch failed: nothing changes but the loading mark.
    pub fn load_failed(&mut self)
        ensures
            final(self).episodes == old(self).episodes,
            final(self).offset == old(self).offset,
            final(self).total == old(self).total,
            !final(self).loading_more,
            old(self).wf() ==> final(self).wf(),
    {
        self.loading_more = false;
    }

    /// Deleted episodes leave the list; the total drops by the number deleted (not below 0)
    /// and the next page starts after what is left.
    pub fn remove_deleted(&mut self, deleted: &Vec<i32>)
        requires
            i64::MIN <= old(self).total - (deleted@.len() as i64) <= i64::MAX,
        ensures
            final(self).episodes@ == old(self).episodes@.filter(|e: Episode| !deleted@.contains(e.episodeid)),
            final(self).total == (if old(self).total - (deleted@.len() as i64) < 0 {
                0
            } else {
                old(self).total - (deleted@.len() as i64)
            }),
            final(self).offset == final(self).episodes@.len() as i64,
            final(self).loading_more == old(self).loading_more,
            final(self).wf(),
            final(self).total >= 0,
    {
        let ghost pred = |e: Episode| !deleted@.contains(e.episodeid);
        let mut kept: Vec<Episode> = Vec::new();
        let mut i: usize = 0;
        while i < self.episodes.len()
            invariant
                i <= self.episodes.len(),
                pred == (|e: Episode| !deleted@.contains(e.episodeid)),
                kept@ == self.episodes@.take(i as int).filter(pred),
            decreases self.episodes.len() - i,
        {
            reveal_with_fuel(Seq::filter, 1);
            assert(self.episodes@.take(i + 1).drop_last() =~= self.episodes@.take(i as int));
            if !contains_id(deleted, self.episodes[i].episodeid) {
                kept.push(copy_episode(&self.episodes[i]));
            }
            i = i + 1;
        }
        assert(self.episodes@.take(self.episodes.len() as int) =~= self.episodes@);
        self.episodes = kept;
        let t = self.total - (deleted.len() as i64);
        self.total = if t < 0 { 0 } else { t };
        self.offset = self.episodes.len() as i64;
    }
}

/// Whether `id` is listed.
pub fn contains_id(ids: &Vec<i32>, id: i32) -> (r: bool)
    ensures
        r == ids@.contains(id),
{
    let mut i: usize = 0;
    while i < ids.len()
        invariant
            i <= ids.len(),
            forall|j: int| 0 <= j < i ==> ids@[j] != id,
        decreases ids.len() - i,
    {
        if ids[i] == id {
            return true;
        }
        i = i + 1;
    }
    false
}

/// The next fetch for a podcast: `None` while a fetch is under way; otherwise the offset of
/// its loaded episodes (0 before any), and the state marked as loading when it exists.
pub fn begin_podcast_load_more(state: &mut Option<PodcastEpisodeState>) -> (r: Option<i64>)
    ensures
        match *old(state) {
            None => r == Some(0i64) && *final(state) == *old(state),
            Some(s) => if s.loading_more {
                r is None && *final(state) == *old(state)
            } else {
                r == Some(s.offset) && (*final(state) matches Some(t) && t.loading_more && t.episodes
                    == s.episodes && t.offset == s.offset && t.total == s.total)
            },
        },
{
    match state {
        None => Some(0),
        Some(s) => s.begin_load_more(),
    }
}

/// What the row of one downloaded podcast shows.
#[derive(Clone, Copy, Debug, PartialEq, Eq, Structural)]
pub struct PodcastRowCounts {
    /// The episode count shown: the loaded total, or the summary's count before loading.
    pub total: i64,
    pub loading_more: bool,
    /// Whether a "Load more" button is offered.
    pub has_more: bool,
}

/// The counts shown for a podcast from its loaded state, if any, and its summary count.
pub fn podcast_row_counts(state: &Option<PodcastEpisodeState>, summary_count: i64) -> (r: PodcastRowCounts)
    ensures
        match *state {
            Some(s) => r.total == s.total && r.loading_more == s.loading_more && r.has_more == (s.offset < s.total),
            None => r.total == summary_count && !r.loading_more && r.has_more == (0 < summary_count),
        },
{
    match state {
        Some(s) => PodcastRowCounts { total: s.total, loading_more: s.loading_more, has_more: s.offset < s.total },
        None => PodcastRowCounts { total: summary_count, loading_more: false, has_more: 0 < summary_count },
    }
}


/// The count line of a downloaded podcast, such as `12 Downloaded Episodes`.
pub fn downloaded_count_label(total: i64) -> (r: String)
    ensures
        r@ == decimal(total as int) + " Downloaded Episodes"@,
{
    let mut out = decimal_chars(total);
    append_chars(&mut out, &chars_of(" Downloaded Episodes"));
    string_from_chars(&out)
}

} // verus!
