//! Episodes as the pages read them, the status sets (completed, saved, queued) that loaded
//! episodes feed, and favourite filtering.

use std::collections::HashSet;

use vstd::prelude::*;

use crate::podcast_page::status_sync_plan;

verus! {

broadcast use vstd::std_specs::hash::group_hash_axioms;

/// What the pages read of an episode.
#[derive(Clone, Debug, PartialEq, Eq)]
pub struct Episode {
    pub episodeid: i32,
    pub podcastid: i32,
    pub episodetitle: String,
    pub episodedescription: String,
    pub episodeduration: i32,
    pub listenduration: i32,
    pub listendate: Option<String>,
    pub completed: bool,
    pub saved: bool,
    pub queued: bool,
}

/// An exact copy of an episode.
pub fn copy_episode(e: &Episode) -> (r: Episode)
    ensures
        r == *e,
{
    Episode {
        episodeid: e.episodeid,
        podcastid: e.podcastid,
        episodetitle: e.episodetitle.clone(),
        episodedescription: e.episodedescription.clone(),
        episodeduration: e.episodeduration,
        listenduration: e.listenduration,
        listendate: match &e.listendate {
            Some(d) => Some(d.clone()),
            None => None,
        },
        completed: e.completed,
        saved: e.saved,
        queued: e.queued,
    }
}

/// An exact copy of a list of episodes.
pub fn copy_episodes(es: &Vec<Episode>) -> (r: Vec<Episode>)
    ensures
        r@ == es@,
{
    let mut r: Vec<Episode> = Vec::new();
    let mut i: usize = 0;
    while i < es.len()
        invariant
            i <= es.len(),
            r@ == es@.take(i as int),
        decreases es.len() - i,
    {
        r.push(copy_episode(&es[i]));
        i = i + 1;
        assert(r@ =~= es@.take(i as int));
    }
    assert(es@.take(es.len() as int) =~= es@);
    r
}

// ---------------------------------------------------------------- status of a page of episodes

/// Ids of the completed episodes.
pub open spec fn completed_id_set(es: Seq<Episode>) -> Set<i32> {
    Set::new(|id: i32| exists|i: int| 0 <= i < es.len() && es[i].completed && es[i].episodeid == id)
}

/// Adds the ids of the completed episodes among `es` to `set`.
pub fn add_completed_ids(set: &mut HashSet<i32>, es: &Vec<Episode>)
    ensures
        final(set)@ == old(set)@.union(completed_id_set(es@)),
{
    let ghost start = set@;
    let mut i: usize = 0;
    while i < es.len()
        invariant
            i <= es.len(),
            set@ == start.union(completed_id_set(es@.take(i as int))),
        decreases es.len() - i,
    {
        if es[i].completed {
            set.insert(es[i].episodeid);
        }
        proof {
            let t = es@.take(i + 1);
            let p = es@.take(i as int);
            assert forall|id: i32| completed_id_set(t).contains(id) <==> completed_id_set(p).contains(id) || (
            es@[i as int].completed && id == es@[i as int].episodeid) by {
                if completed_id_set(p).contains(id) {
                    let j = choose|j: int| 0 <= j < i && p[j].completed && p[j].episodeid == id;
                    assert(t[j] == p[j]);
                }
                if completed_id_set(t).contains(id) {
                    let j = choose|j: int| 0 <= j < i + 1 && t[j].completed && t[j].episodeid == id;
                    if j < i {
                        assert(p[j] == t[j]);
                    }
                }
                if es@[i as int].completed && id == es@[i as int].episodeid {
                    assert(t[i as int] == es@[i as int]);
                }
            }
            assert(set@ =~= start.union(completed_id_set(t)));
        }
        i = i + 1;
    }
    assert(es@.take(es.len() as int) =~= es@);
}

/// The ids of the completed episodes among `es`.
pub fn completed_episode_ids(es: &Vec<Episode>) -> (r: HashSet<i32>)
    ensures
        r@ == completed_id_set(es@),
{
    let mut r: HashSet<i32> = HashSet::new();
    add_completed_ids(&mut r, es);
    assert(Set::<i32>::empty().union(completed_id_set(es@)) =~= completed_id_set(es@));
    r
}

/// The episodes of `es` from position `start` on.
pub fn episodes_from(es: &Vec<Episode>, start: usize) -> (r: Vec<Episode>)
    requires
        start <= es.len(),
    ensures
        r@ == es@.skip(start as int),
{
    let mut r: Vec<Episode> = Vec::new();
    let mut i: usize = start;
    while i < es.len()
        invariant
            start <= i <= es.len(),
            r@ == es@.subrange(start as int, i as int),
        decreases es.len() - i,
    {
        r.push(copy_episode(&es[i]));
        i = i + 1;
        assert(r@ =~= es@.subrange(start as int, i as int));
    }
    assert(es@.subrange(start as int, es.len() as int) =~= es@.skip(start as int));
    r
}

/// The saved episodes, in order.
pub fn saved_episodes(es: &Vec<Episode>) -> (r: Vec<Episode>)
    ensures
        r@ == es@.filter(|e: Episode| e.saved),
{
    let mut r: Vec<Episode> = Vec::new();
    let mut i: usize = 0;
    while i < es.len()
        invariant
            i <= es.len(),
            r@ == es@.take(i as int).filter(|e: Episode| e.saved),
        decreases es.len() - i,
    {
        reveal_with_fuel(Seq::filter, 1);
        assert(es@.take(i + 1).drop_last() =~= es@.take(i as int));
        if es[i].saved {
            r.push(copy_episode(&es[i]));
        }
        i = i + 1;
    }
    assert(es@.take(es.len() as int) =~= es@);
    r
}

/// The ids of the queued episodes, in order.
pub fn queued_episode_ids(es: &Vec<Episode>) -> (r: Vec<i32>)
    ensures
        r@ == es@.filter(|e: Episode| e.queued).map_values(|e: Episode| e.episodeid),
{
    let mut r: Vec<i32> = Vec::new();
    let mut i: usize = 0;
    while i < es.len()
        invariant
            i <= es.len(),
            r@ == es@.take(i as int).filter(|e: Episode| e.queued).map_values(|e: Episode| e.episodeid),
        decreases es.len() - i,
    {
        reveal_with_fuel(Seq::filter, 1);
        assert(es@.take(i + 1).drop_last() =~= es@.take(i as int));
        let ghost before = es@.take(i as int).filter(|e: Episode| e.queued);
        if es[i].queued {
            r.push(es[i].episodeid);
            assert(before.push(es@[i as int]).map_values(|e: Episode| e.episodeid) =~= before.map_values(|e: Episode| e.episodeid).push(es@[i as int].episodeid));
        }
        i = i + 1;
    }
    assert(es@.take(es.len() as int) =~= es@);
    r
}

// ---------------------------------------------------------------- favourites

/// Whether a subscribed podcast is marked favourite.
#[derive(Clone, Copy, Debug, PartialEq, Eq, Structural)]
pub struct PodcastFavorite {
    pub podcastid: i32,
    pub is_favorite: bool,
}

/// Ids of the favourite podcasts.
pub open spec fn favorite_id_set(pods: Seq<PodcastFavorite>) -> Set<i32> {
    Set::new(|id: i32| exists|i: int| 0 <= i < pods.len() && pods[i].is_favorite && pods[i].podcastid == id)
}

/// The ids of the favourite podcasts.
pub fn favorite_podcast_ids(pods: &Vec<PodcastFavorite>) -> (r: HashSet<i32>)
    ensures
        r@ == favorite_id_set(pods@),
{
    let mut r: HashSet<i32> = HashSet::new();
    let mut i: usize = 0;
    while i < pods.len()
        invariant
            i <= pods.len(),
            r@ == favorite_id_set(pods@.take(i as int)),
        decreases pods.len() - i,
    {
        if pods[i].is_favorite {
            r.insert(pods[i].podcastid);
        }
        proof {
            let t = pods@.take(i + 1);
            assert forall|id: i32| r@.contains(id) <==> favorite_id_set(t).contains(id) by {
                if favorite_id_set(pods@.take(i as int)).contains(id) {
                    let j = choose|j: int| 0 <= j < i && pods@.take(i as int)[j].is_favorite && pods@.take(i as int)[j].podcastid == id;
                    assert(t[j] == pods@.take(i as int)[j]);
                }
                if favorite_id_set(t).contains(id) {
                    let j = choose|j: int| 0 <= j < i + 1 && t[j].is_favorite && t[j].podcastid == id;
                    if j < i {
                        assert(pods@.take(i as int)[j] == t[j]);
                    }
                }
                if pods@[i as int].is_favorite && id == pods@[i as int].podcastid {
                    assert(t[i as int] == pods@[i as int]);
                }
            }
            assert(r@ =~= favorite_id_set(t));
        }
        i = i + 1;
    }
    assert(pods@.take(pods.len() as int) =~= pods@);
    r
}

/// The episodes of favourite podcasts, in order.
pub fn episodes_of_podcasts(es: &Vec<Episode>, podcasts: &HashSet<i32>) -> (r: Vec<Episode>)
    ensures
        r@ == es@.filter(|e: Episode| podcasts@.contains(e.podcastid)),
{
    let ghost keep = |e: Episode| podcasts@.contains(e.podcastid);
    let mut r: Vec<Episode> = Vec::new();
    let mut i: usize = 0;
    while i < es.len()
        invariant
            i <= es.len(),
            keep == (|e: Episode| podcasts@.contains(e.podcastid)),
            r@ == es@.take(i as int).filter(keep),
        decreases es.len() - i,
    {
        reveal_with_fuel(Seq::filter, 1);
        assert(es@.take(i + 1).drop_last() =~= es@.take(i as int));
        if podcasts.contains(&es[i].podcastid) {
            r.push(copy_episode(&es[i]));
        }
        i = i + 1;
    }
    assert(es@.take(es.len() as int) =~= es@);
    r
}

/// The feed's episodes under the favourites filter: only episodes of favourite podcasts when
/// the filter is on and there is a favourite, else all of them.
pub fn feed_visible_episodes(es: &Vec<Episode>, favorites_only: bool, favorites: &HashSet<i32>) -> (r: Vec<Episode>)
    ensures
        favorites_only && !favorites@.is_empty() ==> r@ == es@.filter(|e: Episode| favorites@.contains(e.podcastid)),
        !(favorites_only && !favorites@.is_empty()) ==> r@ == es@,
{
    if favorites_only && !favorites.is_empty() {
        episodes_of_podcasts(es, favorites)
    } else {
        copy_episodes(es)
    }
}

/// The history's episodes under the favourites filter: with the filter on, only episodes of
/// favourite podcasts (none when there is no favourite).
pub fn history_visible_episodes(es: &Vec<Episode>, favorites_only: bool, favorites: &HashSet<i32>) -> (r: Vec<Episode>)
    ensures
        favorites_only ==> r@ == es@.filter(|e: Episode| favorites@.contains(e.podcastid)),
        !favorites_only ==> r@ == es@,
{
    if favorites_only {
        episodes_of_podcasts(es, favorites)
    } else {
        copy_episodes(es)
    }
}

// ---------------------------------------------------------------- status sets

/// The status sets the episode lists read: completed ids, saved episodes, queued ids.
pub struct EpisodeStatusState {
    pub completed: HashSet<i32>,
    pub saved: Vec<Episode>,
    pub queued: Option<Vec<i32>>,
}

/// Brings the status sets up to date with the loaded episodes, of which `already_synced`
/// were entered before: unchanged when the count is the same; rebuilt from all of them when
/// nothing was entered yet or there are fewer than before (another podcast); else extended
/// by the new ones. Gives the count now entered.
pub fn sync_episode_status(state: &mut EpisodeStatusState, episodes: &Vec<Episode>, already_synced: usize) -> (synced: usize)
    ensures
        synced == episodes@.len(),
        episodes@.len() == already_synced ==> *final(state) == *old(state),
        episodes@.len() != already_synced ==> ({
            let initial = already_synced == 0 || episodes@.len() < already_synced;
            let fresh = if initial {
                episodes@
            } else {
                episodes@.skip(already_synced as int)
            };
            let ids = fresh.filter(|e: Episode| e.queued).map_values(|e: Episode| e.episodeid);
            &&& initial ==> final(state).completed@ == completed_id_set(fresh) && final(state).saved@ == fresh.filter(
                |e: Episode| e.saved,
            ) && (final(state).queued matches Some(q) && q@ == ids)
            &&& !initial ==> final(state).completed@ == old(state).completed@.union(completed_id_set(fresh))
                && final(state).saved@ == old(state).saved@ + fresh.filter(|e: Episode| e.saved)
                && (final(state).queued matches Some(q) && q@ == match old(state).queued {
                Some(p) => p@ + ids,
                None => ids,
            })
        }),
{
    match status_sync_plan(already_synced, episodes.len()) {
        None => episodes.len(),
        Some((initial, from)) => {
            let fresh = episodes_from(episodes, from);
            assert(episodes@.skip(0) =~= episodes@);
            let mut saved = saved_episodes(&fresh);
            let mut queued = queued_episode_ids(&fresh);
            if initial {
                state.completed = completed_episode_ids(&fresh);
                state.saved = saved;
                state.queued = Some(queued);
            } else {
                add_completed_ids(&mut state.completed, &fresh);
                state.saved.append(&mut saved);
                let next = match &state.queued {
                    Some(q) => {
                        let mut c: Vec<i32> = Vec::new();
                        let mut k: usize = 0;
                        while k < q.len()
                            invariant
                                k <= q.len(),
                                c@ == q@.take(k as int),
                            decreases q.len() - k,
                        {
                            c.push(q[k]);
                            k = k + 1;
                            assert(c@ =~= q@.take(k as int));
                        }
                        assert(q@.take(q.len() as int) =~= q@);
                        c.append(&mut queued);
                        c
                    },
                    None => queued,
                };
                state.queued = Some(next);
            }
            episodes.len()
        },
    }
}

/// The status sets as a first page of the feed sets them: exactly the page's completed ids,
/// saved episodes and queued ids.
pub fn status_of_page(page: &Vec<Episode>) -> (r: EpisodeStatusState)
    ensures
        r.completed@ == completed_id_set(page@),
        r.saved@ == page@.filter(|e: Episode| e.saved),
        r.queued matches Some(q) && q@ == page@.filter(|e: Episode| e.queued).map_values(|e: Episode| e.episodeid),
{
    EpisodeStatusState {
        completed: completed_episode_ids(page),
        saved: saved_episodes(page),
        queued: Some(queued_episode_ids(page)),
    }
}

} // verus!
