//! The feed of recent episodes: paging through it.

use vstd::prelude::*;

use crate::episodes::Episode;

verus! {

/// The recent episodes loaded so far.
#[derive(Clone, Debug, PartialEq, Eq)]
pub struct FeedState {
    pub episodes: Vec<Episode>,
    /// Where the next page starts.
    pub offset: i64,
    /// How many recent episodes the server has.
    pub total: i64,
}

impl FeedState {
    /// The next page starts after the loaded episodes.
    pub open spec fn wf(&self) -> bool {
        self.offset == self.episodes@.len()
    }

    /// The feed once its first page has arrived.
    pub fn from_first_page(page: Vec<Episode>, total: i64) -> (r: Self)
        requires
            page@.len() <= i64::MAX,
        ensures
            r.episodes@ == page@,
            r.offset == page@.len(),
            r.total == total,
            r.wf(),
    {
        let offset = page.len() as i64;
        FeedState { episodes: page, offset, total }
    }

    /// Whether the server has episodes beyond the loaded ones.
    pub fn backend_can_load_more(&self) -> (r: bool)
        ensures
            r == (self.offset < self.total),
    {
        self.offset < self.total
    }

    /// The offset of the next page to fetch: none while a fetch is under way or when
    /// everything is loaded.
    pub fn next_page_offset(&self, loading_more: bool) -> (r: Option<i64>)
        ensures
            (loading_more || self.offset >= self.total) ==> r is None,
            !(loading_more || self.offset >= self.total) ==> r == Some(self.offset),
    {
        if loading_more || self.offset >= self.total {
            None
        } else {
            Some(self.offset)
        }
    }

    /// A page fetched at `fetched_at` has arrived: it is appended, and the next page starts
    /// `page.len()` past `fetched_at`.
    pub fn apply_page(&mut self, fetched_at: i64, page: Vec<Episode>, total: i64)
        requires
            page@.len() <= i64::MAX,
            fetched_at + page@.len() <= i64::MAX,
            old(self).episodes@.len() + page@.len() <= usize::MAX,
        ensures
            final(self).episodes@ == old(self).episodes@ + page@,
            final(self).offset == fetched_at + page@.len(),
            final(self).total == total,
    {
        let mut page = page;
        let n = page.len() as i64;
        self.episodes.append(&mut page);
        self.offset = fetched_at + n;
        self.total = total;
    }
}

/// A page fetched at the feed's own offset keeps the next page right after the loaded
/// episodes.
pub proof fn lemma_feed_page_keeps_offset(before: FeedState, fetched_at: i64, page: Seq<Episode>, after: FeedState)
    requires
        before.wf(),
        fetched_at == before.offset,
        after.episodes@ == before.episodes@ + page,
        after.offset == fetched_at + page.len(),
    ensures
        after.wf(),
{
}

} // verus!
