//! Selecting episodes for bulk actions, and podcasts to merge.

use std::collections::HashSet;

use vstd::prelude::*;

use crate::episodes::Episode;
use crate::text::{append_chars, chars_of, decimal, digits_chars, string_from_chars};

verus! {

broadcast use vstd::std_specs::hash::group_hash_axioms;

/// `s` with `id` added when absent and removed when present.
pub open spec fn toggled(s: Set<i32>, id: i32) -> Set<i32> {
    if s.contains(id) {
        s.remove(id)
    } else {
        s.insert(id)
    }
}

/// Ticks or unticks one episode.
pub fn toggle_selection(selected: &mut HashSet<i32>, id: i32)
    ensures
        final(selected)@ == toggled(old(selected)@, id),
{
    if selected.contains(&id) {
        selected.remove(&id);
    } else {
        selected.insert(id);
    }
}

/// Ticking an episode twice leaves the selection as it was.
pub proof fn lemma_toggle_twice(s: Set<i32>, id: i32)
    ensures
        toggled(toggled(s, id), id) == s,
{
    if s.contains(id) {
        assert(s.remove(id).insert(id) =~= s);
    } else {
        assert(s.insert(id).remove(id) =~= s);
    }
}

/// Index of the first `x` in `s` at or after `i`.
pub open spec fn first_index_of(s: Seq<i32>, x: i32, i: int) -> Option<int>
    decreases s.len() - i,
{
    if i < 0 || i >= s.len() {
        None
    } else if s[i] == x {
        Some(i)
    } else {
        first_index_of(s, x, i + 1)
    }
}

/// Where the episode `cutoff` stands in the list (the top when it is not there).
pub open spec fn cutoff_index(ids: Seq<i32>, cutoff: i32) -> int {
    match first_index_of(ids, cutoff, 0) {
        Some(k) => k,
        None => 0,
    }
}

/// Position of the first `x` in `s`.
pub fn position_of(s: &Vec<i32>, x: i32) -> (r: Option<usize>)
    ensures
        match r {
            Some(k) => first_index_of(s@, x, 0) == Some(k as int),
            None => first_index_of(s@, x, 0) is None,
        },
{
    let mut i: usize = 0;
    while i < s.len()
        invariant
            i <= s.len(),
            first_index_of(s@, x, 0) == first_index_of(s@, x, i as int),
        decreases s.len() - i,
    {
        if s[i] == x {
            return Some(i);
        }
        i = i + 1;
    }
    None
}

proof fn lemma_first_index_in_range(s: Seq<i32>, x: i32, i: int)
    requires
        0 <= i,
    ensures
        first_index_of(s, x, i) matches Some(k) ==> i <= k < s.len() && s[k] == x,
        first_index_of(s, x, i) is None ==> forall|k: int| i <= k < s.len() ==> s[k] != x,
    decreases s.len() - i,
{
    if 0 <= i < s.len() && s[i] != x {
        lemma_first_index_in_range(s, x, i + 1);
    }
}

/// Adds the ids `ids[from..to]` to the selection.
fn select_range(ids: &Vec<i32>, from: usize, to: usize, selected: &mut HashSet<i32>)
    requires
        from <= to <= ids.len(),
    ensures
        final(selected)@ == old(selected)@.union(ids@.subrange(from as int, to as int).to_set()),
{
    let mut i: usize = from;
    while i < to
        invariant
            from <= i <= to <= ids.len(),
            selected@ == old(selected)@.union(ids@.subrange(from as int, i as int).to_set()),
        decreases to - i,
    {
        let ghost before = selected@;
        selected.insert(ids[i]);
        assert(ids@.subrange(from as int, i + 1) =~= ids@.subrange(from as int, i as int).push(ids@[i as int]));
        proof { ids@.subrange(from as int, i as int).lemma_push_to_set_commute(ids@[i as int]); }
        assert(selected@ =~= old(selected)@.union(ids@.subrange(from as int, i + 1).to_set()));
        i = i + 1;
    }
}

/// "Select older": adds the episode `cutoff` and every episode listed after it.
pub fn select_older(ids: &Vec<i32>, cutoff: i32, selected: &mut HashSet<i32>)
    ensures
        final(selected)@ == old(selected)@.union(ids@.skip(cutoff_index(ids@, cutoff)).to_set()),
{
    proof {
        lemma_first_index_in_range(ids@, cutoff, 0);
    }
    let k = match position_of(ids, cutoff) {
        Some(k) => k,
        None => 0,
    };
    select_range(ids, k, ids.len(), selected);
    assert(ids@.subrange(k as int, ids.len() as int) =~= ids@.skip(k as int));
}

/// "Select newer": adds the episode `cutoff` and every episode listed before it.
pub fn select_newer(ids: &Vec<i32>, cutoff: i32, selected: &mut HashSet<i32>)
    ensures
        final(selected)@ == old(selected)@.union(
            ids@.take(
                if cutoff_index(ids@, cutoff) + 1 <= ids.len() {
                    cutoff_index(ids@, cutoff) + 1
                } else {
                    ids.len() as int
                },
            ).to_set(),
        ),
{
    proof {
        lemma_first_index_in_range(ids@, cutoff, 0);
    }
    let k = match position_of(ids, cutoff) {
        Some(k) => k,
        None => 0,
    };
    let end = if k < ids.len() { k + 1 } else { ids.len() };
    select_range(ids, 0, end, selected);
    assert(ids@.subrange(0, end as int) =~= ids@.take(end as int));
}

/// The ids of a list, as a set.
pub fn id_set(ids: &Vec<i32>) -> (r: HashSet<i32>)
    ensures
        r@ == ids@.to_set(),
{
    let mut r: HashSet<i32> = HashSet::new();
    assert(ids@.subrange(0, 0).to_set() =~= Set::<i32>::empty());
    select_range(ids, 0, ids.len(), &mut r);
    assert(ids@.subrange(0, ids.len() as int) =~= ids@);
    assert(Set::<i32>::empty().union(ids@.to_set()) =~= ids@.to_set());
    r
}

/// The test behind "Select all / Deselect all": as many selected as there are distinct
/// listed episodes, and every listed episode selected.
pub open spec fn all_listed_selected(ids: Seq<i32>, selected: Set<i32>) -> bool {
    selected.len() == ids.to_set().len() && ids.to_set().subset_of(selected)
}

/// Whether every listed episode, and nothing else, is selected.
pub fn all_episodes_selected(ids: &Vec<i32>, selected: &HashSet<i32>) -> (r: bool)
    ensures
        r == all_listed_selected(ids@, selected@),
{
    let all = id_set(ids);
    if selected.len() != all.len() {
        return false;
    }
    let mut i: usize = 0;
    while i < ids.len()
        invariant
            i <= ids.len(),
            forall|j: int| 0 <= j < i ==> selected@.contains(ids@[j]),
        decreases ids.len() - i,
    {
        if !selected.contains(&ids[i]) {
            assert(ids@.to_set().contains(ids@[i as int]));
            return false;
        }
        i = i + 1;
    }
    assert forall|x: i32| ids@.to_set().contains(x) implies selected@.contains(x) by {
        let j = choose|j: int| 0 <= j < ids@.len() && ids@[j] == x;
    }
    true
}

/// "Select all / Deselect all": clears the selection when it is exactly the listed
/// episodes, else selects exactly them.
pub fn toggle_select_all(ids: &Vec<i32>, selected: &mut HashSet<i32>)
    ensures
        all_listed_selected(ids@, old(selected)@) ==> final(selected)@ == Set::<i32>::empty(),
        !all_listed_selected(ids@, old(selected)@) ==> final(selected)@ == ids@.to_set(),
{
    if all_episodes_selected(ids, selected) {
        *selected = HashSet::new();
    } else {
        *selected = id_set(ids);
    }
}

/// With a finite selection, the test holds exactly when the selection is the listed episodes.
pub proof fn lemma_all_listed_selected(ids: Seq<i32>, selected: Set<i32>)
    requires
        selected.finite(),
    ensures
        all_listed_selected(ids, selected) <==> selected == ids.to_set(),
{
    vstd::seq_lib::seq_to_set_is_finite(ids);
    if all_listed_selected(ids, selected) {
        vstd::set_lib::lemma_subset_equality(ids.to_set(), selected);
    }
}

/// Ids of the listed episodes that are not completed.
pub open spec fn unplayed_id_set(es: Seq<Episode>) -> Set<i32> {
    Set::new(|id: i32| exists|i: int| 0 <= i < es.len() && !es[i].completed && es[i].episodeid == id)
}

/// Ids of the listed episodes that are started but not completed.
pub open spec fn in_progress_id_set(es: Seq<Episode>) -> Set<i32> {
    Set::new(
        |id: i32|
            exists|i: int|
                0 <= i < es.len() && !es[i].completed && es[i].listenduration > 0 && es[i].episodeid == id,
    )
}

/// "Select unplayed": the ids of the listed episodes not completed.
pub fn unplayed_ids(es: &Vec<Episode>) -> (r: HashSet<i32>)
    ensures
        r@ == unplayed_id_set(es@),
{
    let mut r: HashSet<i32> = HashSet::new();
    let mut i: usize = 0;
    while i < es.len()
        invariant
            i <= es.len(),
            r@ == unplayed_id_set(es@.take(i as int)),
        decreases es.len() - i,
    {
        if !es[i].completed {
            r.insert(es[i].episodeid);
        }
        proof {
            let t = es@.take(i + 1);
            let p = es@.take(i as int);
            assert forall|id: i32| r@.contains(id) <==> unplayed_id_set(t).contains(id) by {
                if unplayed_id_set(p).contains(id) {
                    let j = choose|j: int| 0 <= j < i && !p[j].completed && p[j].episodeid == id;
                    assert(t[j] == p[j]);
                }
                if unplayed_id_set(t).contains(id) {
                    let j = choose|j: int| 0 <= j < i + 1 && !t[j].completed && t[j].episodeid == id;
                    if j < i {
                        assert(p[j] == t[j]);
                    }
                }
                if !es@[i as int].completed && id == es@[i as int].episodeid {
                    assert(t[i as int] == es@[i as int]);
                }
            }
            assert(r@ =~= unplayed_id_set(t));
        }
        i = i + 1;
    }
    assert(es@.take(es.len() as int) =~= es@);
    r
}

/// "Select in progress": the ids of the listed episodes started but not completed.
pub fn in_progress_ids(es: &Vec<Episode>) -> (r: HashSet<i32>)
    ensures
        r@ == in_progress_id_set(es@),
{
    let mut r: HashSet<i32> = HashSet::new();
    let mut i: usize = 0;
    while i < es.len()
        invariant
            i <= es.len(),
            r@ == in_progress_id_set(es@.take(i as int)),
        decreases es.len() - i,
    {
        if !es[i].completed && es[i].listenduration > 0 {
            r.insert(es[i].episodeid);
        }
        proof {
            let t = es@.take(i + 1);
            let p = es@.take(i as int);
            assert forall|id: i32| r@.contains(id) <==> in_progress_id_set(t).contains(id) by {
                if in_progress_id_set(p).contains(id) {
                    let j = choose|j: int| 0 <= j < i && !p[j].completed && p[j].listenduration > 0 && p[j].episodeid == id;
                    assert(t[j] == p[j]);
                }
                if in_progress_id_set(t).contains(id) {
                    let j = choose|j: int| 0 <= j < i + 1 && !t[j].completed && t[j].listenduration > 0 && t[j].episodeid == id;
                    if j < i {
                        assert(p[j] == t[j]);
                    }
                }
                if !es@[i as int].completed && es@[i as int].listenduration > 0 && id == es@[i as int].episodeid {
                    assert(t[i as int] == es@[i as int]);
                }
            }
            assert(r@ =~= in_progress_id_set(t));
        }
        i = i + 1;
    }
    assert(es@.take(es.len() as int) =~= es@);
    r
}

/// The selection after the tick box of a whole podcast is set to `checked`: each listed
/// episode whose state differed from `checked` in the selection as it was before is toggled.
pub open spec fn group_checked(cur: Set<i32>, before: Set<i32>, ids: Seq<i32>, checked: bool) -> Set<i32>
    decreases ids.len(),
{
    if ids.len() == 0 {
        cur
    } else {
        let next = if checked != before.contains(ids[0]) {
            toggled(cur, ids[0])
        } else {
            cur
        };
        group_checked(next, before, ids.drop_first(), checked)
    }
}

/// Ticks or unticks every episode of a podcast at once.
pub fn apply_group_checkbox(selected: &mut HashSet<i32>, ids: &Vec<i32>, checked: bool)
    ensures
        final(selected)@ == group_checked(old(selected)@, old(selected)@, ids@, checked),
{
    let mut flips: Vec<bool> = Vec::new();
    let mut i: usize = 0;
    while i < ids.len()
        invariant
            i <= ids.len(),
            flips.len() == i,
            selected@ == old(selected)@,
            forall|j: int| 0 <= j < i ==> flips[j] == (checked != old(selected)@.contains(ids@[j])),
        decreases ids.len() - i,
    {
        flips.push(checked != selected.contains(&ids[i]));
        i = i + 1;
    }
    let mut i: usize = 0;
    assert(ids@.skip(0) =~= ids@);
    while i < ids.len()
        invariant
            i <= ids.len(),
            flips.len() == ids.len(),
            forall|j: int| 0 <= j < ids.len() ==> flips[j] == (checked != old(selected)@.contains(ids@[j])),
            group_checked(old(selected)@, old(selected)@, ids@, checked) == group_checked(
                selected@,
                old(selected)@,
                ids@.skip(i as int),
                checked,
            ),
        decreases ids.len() - i,
    {
        assert(ids@.skip(i as int).drop_first() =~= ids@.skip(i + 1));
        if flips[i] {
            toggle_selection(selected, ids[i]);
        }
        i = i + 1;
    }
}


proof fn lemma_group_checked_agreeing(cur: Set<i32>, before: Set<i32>, ids: Seq<i32>, checked: bool)
    requires
        ids.no_duplicates(),
        forall|k: int| 0 <= k < ids.len() ==> cur.contains(ids[k]) == before.contains(ids[k]),
    ensures
        group_checked(cur, before, ids, checked) == if checked {
            cur.union(ids.to_set())
        } else {
            cur.difference(ids.to_set())
        },
    decreases ids.len(),
{
    if ids.len() == 0 {
        assert(ids.to_set() =~= Set::<i32>::empty());
        assert(cur.union(ids.to_set()) =~= cur);
        assert(cur.difference(ids.to_set()) =~= cur);
    } else {
        let id0 = ids[0];
        let rest = ids.drop_first();
        let next = if checked != before.contains(id0) {
            toggled(cur, id0)
        } else {
            cur
        };
        assert forall|k: int| 0 <= k < rest.len() implies next.contains(rest[k]) == before.contains(rest[k]) by {
            assert(rest[k] == ids[k + 1]);
            assert(ids[k + 1] != ids[0]);
        }
        assert(rest.no_duplicates()) by {
            assert forall|a: int, b: int| 0 <= a < rest.len() && 0 <= b < rest.len() && a != b implies rest[a] != rest[b] by {
                assert(rest[a] == ids[a + 1] && rest[b] == ids[b + 1]);
            }
        }
        lemma_group_checked_agreeing(next, before, rest, checked);
        assert(ids.to_set() =~= rest.to_set().insert(id0)) by {
            assert(ids =~= seq![id0] + rest);
            assert forall|x: i32| ids.to_set().contains(x) <==> rest.to_set().insert(id0).contains(x) by {
                if ids.to_set().contains(x) {
                    let k = choose|k: int| 0 <= k < ids.len() && ids[k] == x;
                    if k > 0 {
                        assert(rest[k - 1] == x);
                    }
                }
                if rest.to_set().contains(x) {
                    let k = choose|k: int| 0 <= k < rest.len() && rest[k] == x;
                    assert(ids[k + 1] == x);
                }
                if x == id0 {
                    assert(ids[0] == x);
                }
            }
        }
        if checked {
            assert(next.union(rest.to_set()) =~= cur.union(ids.to_set()));
        } else {
            assert(next.difference(rest.to_set()) =~= cur.difference(ids.to_set()));
        }
    }
}

/// When a podcast lists each episode once, ticking its box selects all its episodes and
/// unticking it deselects them all; other selected episodes stay selected.
pub proof fn lemma_group_checkbox(selected: Set<i32>, ids: Seq<i32>, checked: bool)
    requires
        ids.no_duplicates(),
    ensures
        group_checked(selected, selected, ids, checked) == if checked {
            selected.union(ids.to_set())
        } else {
            selected.difference(ids.to_set())
        },
{
    lemma_group_checked_agreeing(selected, selected, ids, checked);
}

// ---------------------------------------------------------------- podcasts to merge

/// The podcasts chosen for merging after clicking `id`: its first occurrence removed when
/// chosen, else added at the end.
pub open spec fn merge_toggled(selected: Seq<i32>, id: i32) -> Seq<i32> {
    match first_index_of(selected, id, 0) {
        Some(k) => selected.remove(k),
        None => selected.push(id),
    }
}

/// Clicking a podcast in the merge picker.
pub fn toggle_merge_selection(selected: &Vec<i32>, id: i32) -> (r: Vec<i32>)
    ensures
        r@ == merge_toggled(selected@, id),
{
    let mut r = selected.clone();
    assert(r@ == selected@);
    proof {
        lemma_first_index_in_range(selected@, id, 0);
    }
    match position_of(selected, id) {
        Some(k) => {
            r.remove(k);
        },
        None => {
            r.push(id);
        },
    }
    r
}

/// Clicking a podcast that was not chosen, then clicking it again, restores the choice.
pub proof fn lemma_merge_toggle_twice(selected: Seq<i32>, id: i32)
    requires
        !selected.contains(id),
    ensures
        merge_toggled(merge_toggled(selected, id), id) == selected,
{
    lemma_first_index_in_range(selected, id, 0);
    if let Some(k) = first_index_of(selected, id, 0) {
        assert(selected[k] == id);
    }
    let once = selected.push(id);
    lemma_first_index_in_range(once, id, 0);
    assert forall|k: int| 0 <= k < selected.len() implies once[k] != id by {
        assert(once[k] == selected[k]);
    }
    assert(first_index_of(selected, id, 0) is None) by {
        if let Some(k) = first_index_of(selected, id, 0) {
            assert(selected[k] == id);
            assert(selected.contains(id));
        }
    }
    assert(merge_toggled(selected, id) == once);
    assert(once[selected.len() as int] == id);
    assert(first_index_of(once, id, 0) is Some);
    let k = first_index_of(once, id, 0)->0;
    assert(k == selected.len());
    assert(once.remove(k) =~= selected);
}

/// Choosing podcasts by clicks never lists one twice.
pub proof fn lemma_merge_toggle_no_duplicates(selected: Seq<i32>, id: i32)
    requires
        selected.no_duplicates(),
    ensures
        merge_toggled(selected, id).no_duplicates(),
        merge_toggled(selected, id).to_set() == toggled(selected.to_set(), id),
{
    lemma_first_index_in_range(selected, id, 0);
    let r = merge_toggled(selected, id);
    match first_index_of(selected, id, 0) {
        Some(k) => {
            assert forall|a: int, b: int| 0 <= a < r.len() && 0 <= b < r.len() && a != b implies r[a] != r[b] by {
                let a2 = if a < k { a } else { a + 1 };
                let b2 = if b < k { b } else { b + 1 };
                assert(r[a] == selected[a2] && r[b] == selected[b2]);
            }
            assert forall|x: i32| r.to_set().contains(x) <==> toggled(selected.to_set(), id).contains(x) by {
                if r.to_set().contains(x) {
                    let a = choose|a: int| 0 <= a < r.len() && r[a] == x;
                    let a2 = if a < k { a } else { a + 1 };
                    assert(r[a] == selected[a2]);
                    assert(a2 != k);
                }
                if x != id && selected.to_set().contains(x) {
                    let a = choose|a: int| 0 <= a < selected.len() && selected[a] == x;
                    if a < k {
                        assert(r[a] == x);
                    } else {
                        assert(a != k);
                        assert(r[a - 1] == x);
                    }
                }
                assert(selected.to_set().contains(id));
            }
            assert(r.to_set() =~= toggled(selected.to_set(), id));
        },
        None => {
            assert forall|a: int, b: int| 0 <= a < r.len() && 0 <= b < r.len() && a != b implies r[a] != r[b] by {
                if a < selected.len() && b < selected.len() {
                } else if a == selected.len() {
                    assert(r[b] == selected[b]);
                } else {
                    assert(r[a] == selected[a]);
                }
            }
            selected.lemma_push_to_set_commute(id);
            assert(!selected.to_set().contains(id));
        },
    }
}

/// The merge picker's summary, such as `2 podcasts selected`.
pub open spec fn merge_summary(count: int) -> Seq<char> {
    decimal(count) + (if count == 1 { " podcast"@ } else { " podcasts"@ }) + " selected"@
}

/// The merge picker's summary for `count` chosen podcasts.
pub fn merge_selection_summary(count: usize) -> (r: String)
    ensures
        r@ == merge_summary(count as int),
{
    let mut out = digits_chars(count as u64);
    if count == 1 {
        append_chars(&mut out, &chars_of(" podcast"));
    } else {
        append_chars(&mut out, &chars_of(" podcasts"));
    }
    append_chars(&mut out, &chars_of(" selected"));
    string_from_chars(&out)
}

} // verus!
