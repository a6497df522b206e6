//! The discover pages: recommendations grouped by reason, the category chips, and the
//! host and podcast cards of the people database.

use vstd::prelude::*;

use crate::sort::{is_stable_order, key_views, stable_sort_order, SortKey};
use crate::text::{
    append_chars, chars_of, decimal, int_to_string, lowercased, replace, replaced, str_eq,
    string_from_chars, to_lowercase,
};

verus! {

/// The recommendations that share one reason, by their positions in the list.
#[derive(Clone, Debug, PartialEq, Eq)]
pub struct ReasonGroup {
    pub reason: String,
    pub members: Vec<usize>,
}

/// `groups` are the reasons of `reasons` in order of first appearance, each with exactly
/// the positions that carry it, in increasing order.
pub open spec fn groups_reasons(reasons: Seq<Seq<char>>, groups: Seq<ReasonGroup>) -> bool {
    &&& forall|k: int| 0 <= k < groups.len() ==> #[trigger] groups[k].members@.len() > 0
    &&& forall|k: int, a: int, b: int|
        0 <= k < groups.len() && 0 <= a < b < groups[k].members@.len() ==> #[trigger] groups[k].members@[a]
            < #[trigger] groups[k].members@[b]
    &&& forall|k: int, a: int|
        0 <= k < groups.len() && 0 <= a < groups[k].members@.len() ==> #[trigger] groups[k].members@[a]
            < reasons.len() && reasons[groups[k].members@[a] as int] == groups[k].reason@
    &&& forall|k: int, l: int| 0 <= k < l < groups.len() ==> #[trigger] groups[k].reason@ != #[trigger] groups[l].reason@
    &&& forall|k: int, l: int| 0 <= k < l < groups.len() ==> #[trigger] groups[k].members@[0] < #[trigger] groups[l].members@[0]
    &&& forall|i: int| 0 <= i < reasons.len() ==> exists|k: int| 0 <= k < groups.len() && #[trigger] groups[k].reason@ == #[trigger] reasons[i]
    &&& forall|i: int, k: int|
        0 <= i < reasons.len() && 0 <= k < groups.len() && #[trigger] reasons[i] == #[trigger] groups[k].reason@
            ==> groups[k].members@.contains(i as usize)
}

/// The texts of a list of strings.
pub open spec fn string_views(v: Seq<String>) -> Seq<Seq<char>> {
    v.map_values(|s: String| s@)
}

fn find_group(groups: &Vec<ReasonGroup>, reason: &str) -> (r: Option<usize>)
    ensures
        r matches Some(k) ==> k < groups.len() && groups@[k as int].reason@ == reason@,
        r is None ==> forall|k: int| 0 <= k < groups.len() ==> groups@[k].reason@ != reason@,
{
    let mut k: usize = 0;
    while k < groups.len()
        invariant
            k <= groups.len(),
            forall|j: int| 0 <= j < k ==> groups@[j].reason@ != reason@,
        decreases groups.len() - k,
    {
        if str_eq(groups[k].reason.as_str(), reason) {
            return Some(k);
        }
        k = k + 1;
    }
    None
}

/// Groups recommendations by their reason ("Because you listen to …"), keeping the list's
/// order so that the strongest reason leads.
pub fn group_by_reason(reasons: &Vec<String>) -> (groups: Vec<ReasonGroup>)
    ensures
        groups_reasons(string_views(reasons@), groups@),
{
    let ghost rs = string_views(reasons@);
    let mut groups: Vec<ReasonGroup> = Vec::new();
    let mut i: usize = 0;
    while i < reasons.len()
        invariant
            i <= reasons.len(),
            rs == string_views(reasons@),
            groups_reasons(rs.take(i as int), groups@),
            forall|k: int, a: int|
                0 <= k < groups.len() && 0 <= a < groups@[k].members@.len() ==> #[trigger] groups@[k].members@[a] < i,
        decreases reasons.len() - i,
    {
        let ghost before = groups@;
        let ghost ti = rs.take(i as int);
        let ghost t = rs.take(i + 1);
        assert(forall|j: int| 0 <= j < i ==> t[j] == ti[j]);
        assert(t[i as int] == reasons@[i as int]@);
        match find_group(&groups, reasons[i].as_str()) {
            Some(k) => {
                let mut g = groups.remove(k);
                let ghost old_members = g.members@;
                g.members.push(i);
                groups.insert(k, g);
                assert(groups@ =~= before.update(k as int, g));
                proof {
                    assert forall|x: int| 0 <= x < groups.len() implies #[trigger] groups@[x].members@.len() > 0 by {
                        assert(before[x].members@.len() > 0);
                    }
                    assert forall|x: int, a: int, b: int|
                        0 <= x < groups.len() && 0 <= a < b < groups@[x].members@.len() implies #[trigger] groups@[x].members@[a]
                            < #[trigger] groups@[x].members@[b] by {
                        if x == k && b == old_members.len() {
                            assert(groups@[x].members@[a] == old_members[a]);
                            assert(old_members[a] < i);
                        } else if x == k {
                            assert(groups@[x].members@[a] == old_members[a]);
                            assert(groups@[x].members@[b] == old_members[b]);
                        } else {
                            assert(groups@[x].members@[a] == before[x].members@[a]);
                            assert(groups@[x].members@[b] == before[x].members@[b]);
                        }
                    }
                    assert forall|x: int, a: int|
                        0 <= x < groups.len() && 0 <= a < groups@[x].members@.len() implies #[trigger] groups@[x].members@[a]
                            < t.len() && t[groups@[x].members@[a] as int] == groups@[x].reason@ by {
                        if x == k && a == old_members.len() {
                        } else if x == k {
                            assert(groups@[x].members@[a] == old_members[a]);
                            assert(old_members[a] < ti.len() && ti[old_members[a] as int] == before[x].reason@);
                        } else {
                            assert(groups@[x].members@[a] == before[x].members@[a]);
                            assert(before[x].members@[a] < ti.len() && ti[before[x].members@[a] as int] == before[x].reason@);
                        }
                    }
                    assert forall|x: int, y: int| 0 <= x < y < groups.len() implies #[trigger] groups@[x].reason@ != #[trigger] groups@[y].reason@ by {
                        assert(groups@[x].reason@ == before[x].reason@);
                        assert(groups@[y].reason@ == before[y].reason@);
                    }
                    assert forall|x: int, y: int| 0 <= x < y < groups.len() implies #[trigger] groups@[x].members@[0] < #[trigger] groups@[y].members@[0] by {
                        assert(groups@[x].members@[0] == before[x].members@[0]);
                        assert(groups@[y].members@[0] == before[y].members@[0]);
                    }
                    assert forall|j: int| 0 <= j < t.len() implies exists|m: int| 0 <= m < groups.len() && #[trigger] groups@[m].reason@ == #[trigger] t[j] by {
                        if j < i {
                            assert(ti[j] == t[j]);
                            let m = choose|m: int| 0 <= m < before.len() && #[trigger] before[m].reason@ == #[trigger] ti[j];
                            assert(groups@[m].reason@ == before[m].reason@);
                        } else {
                            assert(groups@[k as int].reason@ == t[j]);
                        }
                    }
                    assert forall|j: int, m: int| 0 <= j < t.len() && 0 <= m < groups.len() && #[trigger] t[j] == #[trigger] groups@[m].reason@ implies groups@[m].members@.contains(j as usize) by {
                        if j < i {
                            assert(ti[j] == t[j]);
                            assert(before[m].reason@ == groups@[m].reason@);
                            assert(before[m].members@.contains(j as usize));
                            if m == k {
                                let a = choose|a: int| 0 <= a < old_members.len() && old_members[a] == j as usize;
                                assert(groups@[m].members@[a] == j as usize);
                            }
                        } else {
                            if m != k {
                                assert(before[m].reason@ != before[k as int].reason@);
                            }
                            assert(groups@[k as int].members@[old_members.len() as int] == i);
                        }
                    }
                    assert(groups_reasons(t, groups@));
                }
            },
            None => {
                let mut members: Vec<usize> = Vec::new();
                members.push(i);
                let g = ReasonGroup { reason: reasons[i].clone(), members };
                groups.push(g);
                proof {
                    assert forall|x: int| 0 <= x < groups.len() implies #[trigger] groups@[x].members@.len() > 0 by {
                        if x < before.len() {
                            assert(before[x].members@.len() > 0);
                        }
                    }
                    assert forall|x: int, a: int, b: int|
                        0 <= x < groups.len() && 0 <= a < b < groups@[x].members@.len() implies #[trigger] groups@[x].members@[a]
                            < #[trigger] groups@[x].members@[b] by {
                        if x < before.len() {
                            assert(groups@[x] == before[x]);
                        }
                    }
                    assert forall|x: int, a: int|
                        0 <= x < groups.len() && 0 <= a < groups@[x].members@.len() implies #[trigger] groups@[x].members@[a]
                            < t.len() && t[groups@[x].members@[a] as int] == groups@[x].reason@ by {
                        if x < before.len() {
                            assert(groups@[x] == before[x]);
                            assert(before[x].members@[a] < ti.len() && ti[before[x].members@[a] as int] == before[x].reason@);
                        }
                    }
                    assert forall|x: int, y: int| 0 <= x < y < groups.len() implies #[trigger] groups@[x].reason@ != #[trigger] groups@[y].reason@ by {
                        if y < before.len() {
                            assert(groups@[x] == before[x]);
                            assert(groups@[y] == before[y]);
                            assert(before[x].reason@ != before[y].reason@);
                        } else {
                            assert(groups@[x] == before[x]);
                            assert(before[x].reason@ != reasons@[i as int]@);
                            assert(groups@[y].reason@ == reasons@[i as int]@);
                        }
                    }
                    assert forall|x: int, y: int| 0 <= x < y < groups.len() implies #[trigger] groups@[x].members@[0] < #[trigger] groups@[y].members@[0] by {
                        assert(groups@[x] == before[x]);
                        assert(before[x].members@.len() > 0);
                        if y < before.len() {
                            assert(groups@[y] == before[y]);
                        }
                    }
                    assert forall|j: int| 0 <= j < t.len() implies exists|m: int| 0 <= m < groups.len() && #[trigger] groups@[m].reason@ == #[trigger] t[j] by {
                        if j < i {
                            assert(ti[j] == t[j]);
                            let m = choose|m: int| 0 <= m < before.len() && #[trigger] before[m].reason@ == #[trigger] ti[j];
                            assert(groups@[m].reason@ == before[m].reason@);
                        } else {
                            assert(groups@[before.len() as int].reason@ == t[j]);
                        }
                    }
                    assert forall|j: int, m: int| 0 <= j < t.len() && 0 <= m < groups.len() && #[trigger] t[j] == #[trigger] groups@[m].reason@ implies groups@[m].members@.contains(j as usize) by {
                        if j < i {
                            assert(ti[j] == t[j]);
                            if m == before.len() {
                                let mm = choose|mm: int| 0 <= mm < before.len() && #[trigger] before[mm].reason@ == #[trigger] ti[j];
                                assert(before[mm].reason@ == reasons@[i as int]@);
                            } else {
                                assert(before[m].members@.contains(j as usize));
                            }
                        } else {
                            if m < before.len() {
                                assert(before[m].reason@ != reasons@[i as int]@);
                            }
                            assert(groups@[m].members@[0] == i);
                        }
                    }
                    assert(groups_reasons(t, groups@));
                }
            },
        }
        i = i + 1;
    }
    assert(rs.take(reasons.len() as int) =~= rs);
    groups
}

// ---------------------------------------------------------------- categories

/// The categories in the order the chips show them: by lowercased name, ties kept in the
/// order the server sent them (the `p[k]`-th category is shown `k`-th).
pub fn category_order(names: &Vec<String>) -> (p: Vec<usize>)
    ensures
        is_stable_order(names@.map_values(|n: String| (true, lowercased(n@), 0int)), false, p@),
{
    let mut keys: Vec<SortKey> = Vec::new();
    let mut i: usize = 0;
    while i < names.len()
        invariant
            i <= names.len(),
            keys.len() == i,
            forall|k: int| 0 <= k < i ==> crate::sort::key_view(#[trigger] keys@[k]) == (true, lowercased(names@[k]@), 0int),
        decreases names.len() - i,
    {
        let lower = to_lowercase(names[i].as_str());
        keys.push(SortKey::Text(chars_of(lower.as_str())));
        i = i + 1;
    }
    assert(key_views(keys@) =~= names@.map_values(|n: String| (true, lowercased(n@), 0int)));
    stable_sort_order(&keys, false)
}

/// Whether a category chip is highlighted: it is the chosen category.
pub fn category_is_active(selected: &Option<String>, name: &str) -> (r: bool)
    ensures
        r == (selected matches Some(s) && s@ == name@),
{
    match selected {
        Some(s) => str_eq(s.as_str(), name),
        None => false,
    }
}

// ---------------------------------------------------------------- host and podcast cards

/// A host card's "{count} shows" line: shown only for hosts with at least one podcast.
pub fn host_shows_line(template: &str, podcast_count: i64) -> (r: Option<String>)
    ensures
        podcast_count <= 0 ==> r is None,
        podcast_count > 0 ==> (r matches Some(s) && s@ == replaced(template@, "{count}"@, decimal(podcast_count as int))),
{
    if podcast_count > 0 {
        let n = int_to_string(podcast_count);
        Some(replace(template, "{count}", n.as_str()))
    } else {
        None
    }
}

/// A popular podcast's "{count} hosts" line.
pub fn podcast_hosts_line(template: &str, host_count: i64) -> (r: String)
    ensures
        r@ == replaced(template@, "{count}"@, decimal(host_count as int)),
{
    let n = int_to_string(host_count);
    replace(template, "{count}", n.as_str())
}

/// The statistics line: `{hosts}` then `{podcasts}` filled in.
pub fn stats_summary(template: &str, total_hosts: i64, total_podcasts: i64) -> (r: String)
    ensures
        r@ == replaced(
            replaced(template@, "{hosts}"@, decimal(total_hosts as int)),
            "{podcasts}"@,
            decimal(total_podcasts as int),
        ),
{
    let h = int_to_string(total_hosts);
    let p = int_to_string(total_podcasts);
    let first = replace(template, "{hosts}", h.as_str());
    replace(first.as_str(), "{podcasts}", p.as_str())
}

/// The page of a person.
pub fn person_path(name: &str) -> (r: String)
    ensures
        r@ == "/person/"@ + name@,
{
    let mut out = chars_of("/person/");
    append_chars(&mut out, &chars_of(name));
    string_from_chars(&out)
}

/// The host sections are shown when any of the three lists has entries.
pub fn host_sections_shown(top_hosts: usize, recent_hosts: usize, popular_podcasts: usize) -> (r: bool)
    ensures
        r == (top_hosts > 0 || recent_hosts > 0 || popular_podcasts > 0),
{
    top_hosts > 0 || recent_hosts > 0 || popular_podcasts > 0
}

} // verus!
