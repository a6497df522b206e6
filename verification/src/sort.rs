//! Stable sorting by text or number keys, ascending or descending, as `slice::sort_by`
//! orders with a comparator on those keys.

use vstd::prelude::*;

use crate::text::{compare_chars, flip, int_order, lemma_lex_order_total, lex_order, Comparison};

verus! {

/// What a list is sorted by: text (compared by code point) or a number.
#[derive(Clone, Debug, PartialEq, Eq)]
pub enum SortKey {
    Text(Vec<char>),
    Number(i64),
}

/// A key as a value: `(true, text, _)` for text, `(false, _, n)` for the number `n`.
pub type KeyView = (bool, Seq<char>, int);

/// A key as a value.
pub open spec fn key_view(k: SortKey) -> KeyView {
    match k {
        SortKey::Text(x) => (true, x@, 0),
        SortKey::Number(n) => (false, Seq::<char>::empty(), n as int),
    }
}

/// The keys of a list as values.
pub open spec fn key_views(ks: Seq<SortKey>) -> Seq<KeyView> {
    ks.map_values(|k: SortKey| key_view(k))
}

/// Comparison of two keys; text keys come before number keys (lists never mix them).
pub open spec fn key_order(a: KeyView, b: KeyView) -> Comparison {
    if a.0 && b.0 {
        lex_order(a.1, b.1)
    } else if a.0 {
        Comparison::Less
    } else if b.0 {
        Comparison::Greater
    } else {
        int_order(a.2, b.2)
    }
}

/// Comparison in the chosen direction.
pub open spec fn dir_order(a: KeyView, b: KeyView, descending: bool) -> Comparison {
    if descending {
        key_order(b, a)
    } else {
        key_order(a, b)
    }
}

/// In a stable sort of `keys`, the element at `i` comes before the one at `j`.
pub open spec fn goes_before(keys: Seq<KeyView>, descending: bool, i: int, j: int) -> bool {
    let c = dir_order(keys[i], keys[j], descending);
    c == Comparison::Less || (c == Comparison::Equal && i < j)
}

/// `j` occurs in `p`.
pub open spec fn lists(p: Seq<usize>, j: int) -> bool {
    exists|k: int| 0 <= k < p.len() && p[k] as int == j
}

/// `p` lists every index of `keys` once, in the order of a stable sort.
pub open spec fn is_stable_order(keys: Seq<KeyView>, descending: bool, p: Seq<usize>) -> bool {
    &&& p.len() == keys.len()
    &&& forall|k: int| 0 <= k < p.len() ==> p[k] < keys.len()
    &&& forall|k: int, l: int| 0 <= k < l < p.len() ==> p[k] != p[l]
    &&& forall|i: int| 0 <= i < keys.len() ==> #[trigger] lists(p, i)
    &&& forall|k: int, l: int| 0 <= k < l < p.len() ==> goes_before(keys, descending, p[k] as int, p[l] as int)
}

/// Key comparison is a total preorder.
pub proof fn lemma_key_order(a: KeyView, b: KeyView, c: KeyView)
    ensures
        key_order(b, a) == flip(key_order(a, b)),
        key_order(a, b) == Comparison::Equal ==> key_order(a, c) == key_order(b, c) && key_order(c, a) == key_order(c, b),
        key_order(a, b) == Comparison::Less && key_order(b, c) == Comparison::Less ==> key_order(a, c) == Comparison::Less,
{
    lemma_lex_order_total(a.1, b.1, c.1);
    lemma_lex_order_total(a.1, c.1, b.1);
    lemma_lex_order_total(b.1, c.1, a.1);
    lemma_lex_order_total(b.1, a.1, c.1);
    lemma_lex_order_total(c.1, a.1, b.1);
    lemma_lex_order_total(c.1, b.1, a.1);
}

proof fn lemma_dir_order(a: KeyView, b: KeyView, c: KeyView, d: bool)
    ensures
        dir_order(b, a, d) == flip(dir_order(a, b, d)),
        dir_order(a, b, d) == Comparison::Equal ==> dir_order(a, c, d) == dir_order(b, c, d),
        dir_order(b, c, d) == Comparison::Equal ==> dir_order(a, b, d) == dir_order(a, c, d),
        dir_order(a, b, d) == Comparison::Less && dir_order(b, c, d) == Comparison::Less ==> dir_order(a, c, d) == Comparison::Less,
{
    lemma_key_order(a, b, c);
    lemma_key_order(b, a, c);
    lemma_key_order(b, c, a);
    lemma_key_order(c, b, a);
    lemma_key_order(c, a, b);
    lemma_key_order(a, c, b);
}

proof fn lemma_goes_before_transitive(keys: Seq<KeyView>, d: bool, i: int, j: int, k: int)
    requires
        0 <= i < keys.len(),
        0 <= j < keys.len(),
        0 <= k < keys.len(),
        goes_before(keys, d, i, j),
        goes_before(keys, d, j, k),
    ensures
        goes_before(keys, d, i, k),
{
    lemma_dir_order(keys[i], keys[j], keys[k], d);
}

/// Compares two keys.
pub fn compare_keys(a: &SortKey, b: &SortKey) -> (r: Comparison)
    ensures
        r == key_order(key_view(*a), key_view(*b)),
{
    match a {
        SortKey::Text(x) => match b {
            SortKey::Text(y) => compare_chars(x, y),
            SortKey::Number(_) => Comparison::Less,
        },
        SortKey::Number(x) => match b {
            SortKey::Text(_) => Comparison::Greater,
            SortKey::Number(y) => if *x < *y {
                Comparison::Less
            } else if *x > *y {
                Comparison::Greater
            } else {
                Comparison::Equal
            },
        },
    }
}

/// Compares two keys in the chosen direction.
pub fn directed_compare(a: &SortKey, b: &SortKey, descending: bool) -> (r: Comparison)
    ensures
        r == dir_order(key_view(*a), key_view(*b), descending),
{
    if descending {
        compare_keys(b, a)
    } else {
        compare_keys(a, b)
    }
}

/// The order in which a stable sort puts the elements with these keys: `p[k]` is the index
/// of the element that ends at position `k`.
pub fn stable_sort_order(keys: &Vec<SortKey>, descending: bool) -> (p: Vec<usize>)
    ensures
        is_stable_order(key_views(keys@), descending, p@),
{
    let ghost kv = key_views(keys@);
    let mut p: Vec<usize> = Vec::new();
    let mut i: usize = 0;
    while i < keys.len()
        invariant
            i <= keys.len(),
            kv == key_views(keys@),
            p.len() == i,
            forall|k: int| 0 <= k < p.len() ==> p[k] < i,
            forall|k: int, l: int| 0 <= k < l < p.len() ==> p[k] != p[l],
            forall|j: int| 0 <= j < i ==> #[trigger] lists(p@, j),
            forall|k: int, l: int| 0 <= k < l < p.len() ==> goes_before(kv, descending, p[k] as int, p[l] as int),
        decreases keys.len() - i,
    {
        let mut pos: usize = p.len();
        while pos > 0 && directed_compare(&keys[i], &keys[p[pos - 1]], descending)
            == Comparison::Less
            invariant
                pos <= p.len(),
                kv == key_views(keys@),
                p.len() == i,
                i < keys.len(),
                forall|k: int| 0 <= k < p.len() ==> p[k] < i,
                forall|l: int| pos <= l < p.len() ==> dir_order(kv[i as int], kv[p[l] as int], descending) == Comparison::Less,
            decreases pos,
        {
            pos = pos - 1;
        }
        let ghost old_p = p@;
        proof {
            if pos > 0 {
                lemma_dir_order(kv[i as int], kv[old_p[pos - 1] as int], kv[i as int], descending);
                assert(goes_before(kv, descending, old_p[pos - 1] as int, i as int));
            }
            assert forall|k: int| 0 <= k < pos implies goes_before(kv, descending, old_p[k] as int, i as int) by {
                if k < pos - 1 {
                    lemma_goes_before_transitive(kv, descending, old_p[k] as int, old_p[pos - 1] as int, i as int);
                }
            }
        }
        p.insert(pos, i);
        proof {
            assert(p@ =~= old_p.subrange(0, pos as int).push(i).add(old_p.subrange(pos as int, old_p.len() as int)));
            assert forall|k: int, l: int| 0 <= k < l < p.len() implies goes_before(kv, descending, p[k] as int, p[l] as int) by {
                if l < pos {
                    assert(p[k] == old_p[k] && p[l] == old_p[l]);
                } else if l == pos {
                    assert(p[k] == old_p[k]);
                } else if k == pos {
                    assert(p[l] == old_p[l - 1]);
                } else if k < pos {
                    assert(p[k] == old_p[k] && p[l] == old_p[l - 1]);
                } else {
                    assert(p[k] == old_p[k - 1] && p[l] == old_p[l - 1]);
                }
            }
            assert forall|j: int| 0 <= j < i + 1 implies #[trigger] lists(p@, j) by {
                if j < i {
                    assert(lists(old_p, j));
                    let k = choose|k: int| 0 <= k < old_p.len() && old_p[k] as int == j;
                    if k < pos {
                        assert(p[k] == old_p[k]);
                    } else {
                        assert(p[k + 1] == old_p[k]);
                    }
                } else {
                    assert(p[pos as int] == i);
                }
            }
        }
        i = i + 1;
    }
    p
}

} // verus!
