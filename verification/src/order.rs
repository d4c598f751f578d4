//! The order of the lists of a report: items are ranked by a number and two
//! texts, and sorted so that items of equal rank keep their order.

use crate::report::views_of;
use crate::text::{
    lemma_text_le_antisym, lemma_text_le_refl, lemma_text_le_total, lemma_text_le_trans, text_le,
    text_le_exec,
};
use vstd::prelude::*;

verus! {

/// What an item is ranked by: first the number, then the major text, then
/// the minor text.
pub struct SortKey {
    pub rank: int,
    pub major: Seq<char>,
    pub minor: Seq<char>,
}

/// `a` ranks before `b`, or with it.
pub open spec fn key_le(a: SortKey, b: SortKey) -> bool {
    if a.rank != b.rank {
        a.rank < b.rank
    } else if a.major != b.major {
        text_le(a.major, b.major)
    } else {
        text_le(a.minor, b.minor)
    }
}

/// Of two keys one ranks before the other, or with it.
pub proof fn lemma_key_le_total(a: SortKey, b: SortKey)
    ensures
        key_le(a, b) || key_le(b, a),
{
    lemma_text_le_total(a.major, b.major);
    lemma_text_le_total(a.minor, b.minor);
}

/// A key ranks with itself.
pub proof fn lemma_key_le_refl(a: SortKey)
    ensures
        key_le(a, a),
{
    lemma_text_le_refl(a.minor);
}

/// Ranking carries over: what ranks up to a key ranks up to every key that
/// this one ranks up to.
pub proof fn lemma_key_le_trans(a: SortKey, b: SortKey, c: SortKey)
    requires
        key_le(a, b),
        key_le(b, c),
    ensures
        key_le(a, c),
{
    if a.rank == b.rank && b.rank == c.rank {
        if a.major == b.major && b.major == c.major {
            lemma_text_le_trans(a.minor, b.minor, c.minor);
        } else if a.major != b.major && b.major != c.major {
            lemma_text_le_trans(a.major, b.major, c.major);
            if a.major == c.major {
                lemma_text_le_antisym(a.major, b.major);
            }
        }
    }
}

/// Every item ranks before or with the items after it.
pub open spec fn ordered_by<V>(s: Seq<V>, key: spec_fn(V) -> SortKey) -> bool {
    forall|i: int, j: int| 0 <= i <= j < s.len() ==> key_le(key(s[i]), key(s[j]))
}

/// How many items at the front of `s` rank before `x` or with it.
pub open spec fn insert_point<V>(s: Seq<V>, x: V, key: spec_fn(V) -> SortKey) -> nat
    decreases s.len(),
{
    if s.len() > 0 && key_le(key(s[0]), key(x)) {
        1 + insert_point(s.drop_first(), x, key)
    } else {
        0
    }
}

/// `s` with `x` put behind the items at the front that rank before it or with it.
pub open spec fn insert_sorted<V>(s: Seq<V>, x: V, key: spec_fn(V) -> SortKey) -> Seq<V> {
    s.insert(insert_point(s, x, key) as int, x)
}

/// The items of `s` in ascending order; items of equal rank keep the order
/// that they have in `s`.
pub open spec fn sorted_by<V>(s: Seq<V>, key: spec_fn(V) -> SortKey) -> Seq<V>
    decreases s.len(),
{
    if s.len() == 0 {
        Seq::empty()
    } else {
        insert_sorted(sorted_by(s.drop_last(), key), s.last(), key)
    }
}

/// The items in front of the insert point rank up to `x`; the item at the
/// insert point does not.
pub proof fn lemma_insert_point<V>(s: Seq<V>, x: V, key: spec_fn(V) -> SortKey)
    ensures
        insert_point(s, x, key) <= s.len(),
        forall|i: int| 0 <= i < insert_point(s, x, key) ==> key_le(key(#[trigger] s[i]), key(x)),
        insert_point(s, x, key) < s.len() ==> !key_le(
            key(s[insert_point(s, x, key) as int]),
            key(x),
        ),
    decreases s.len(),
{
    if s.len() > 0 && key_le(key(s[0]), key(x)) {
        let rest = s.drop_first();
        lemma_insert_point(rest, x, key);
        assert forall|i: int| 0 <= i < insert_point(s, x, key) implies key_le(
            key(#[trigger] s[i]),
            key(x),
        ) by {
            if i > 0 {
                assert(s[i] == rest[i - 1]);
            }
        }
        if insert_point(s, x, key) < s.len() {
            assert(s[insert_point(s, x, key) as int] == rest[insert_point(rest, x, key) as int]);
        }
    }
}

/// Putting an item into an ordered list leaves it ordered.
pub proof fn lemma_insert_sorted_ordered<V>(s: Seq<V>, x: V, key: spec_fn(V) -> SortKey)
    requires
        ordered_by(s, key),
    ensures
        ordered_by(insert_sorted(s, x, key), key),
        insert_sorted(s, x, key).len() == s.len() + 1,
        insert_sorted(s, x, key).to_multiset() == s.to_multiset().insert(x),
{
    lemma_insert_point(s, x, key);
    let p = insert_point(s, x, key) as int;
    let r = insert_sorted(s, x, key);
    assert forall|i: int, j: int| 0 <= i <= j < r.len() implies key_le(key(r[i]), key(r[j])) by {
        if i == j {
            lemma_key_le_refl(key(r[i]));
        } else if j < p {
            assert(r[i] == s[i] && r[j] == s[j]);
        } else if j == p {
            assert(r[i] == s[i]);
        } else if i < p {
            assert(r[i] == s[i] && r[j] == s[j - 1]);
        } else if i == p {
            assert(r[j] == s[j - 1]);
            assert(key_le(key(s[p]), key(s[j - 1])));
            lemma_key_le_total(key(s[p]), key(x));
            lemma_key_le_trans(key(x), key(s[p]), key(s[j - 1]));
        } else {
            assert(r[i] == s[i - 1] && r[j] == s[j - 1]);
        }
    }
    vstd::seq_lib::to_multiset_insert(s, p, x);
}

/// A sorted list is ordered, and holds the items of the list it was made
/// from, each as often as that list does.
pub proof fn lemma_sorted_by<V>(s: Seq<V>, key: spec_fn(V) -> SortKey)
    ensures
        ordered_by(sorted_by(s, key), key),
        sorted_by(s, key).len() == s.len(),
        sorted_by(s, key).to_multiset() == s.to_multiset(),
    decreases s.len(),
{
    if s.len() == 0 {
        assert(s =~= Seq::empty());
    } else {
        lemma_sorted_by(s.drop_last(), key);
        lemma_insert_sorted_ordered(sorted_by(s.drop_last(), key), s.last(), key);
        assert(s =~= s.drop_last().push(s.last()));
        vstd::seq_lib::to_multiset_build(s.drop_last(), s.last());
    }
}

/// A sorted list holds the items of the list it was made from, and no others.
pub proof fn lemma_sorted_by_members<V>(s: Seq<V>, key: spec_fn(V) -> SortKey)
    ensures
        forall|x: V| sorted_by(s, key).contains(x) <==> s.contains(x),
{
    lemma_sorted_by(s, key);
    assert forall|x: V| sorted_by(s, key).contains(x) <==> s.contains(x) by {
        vstd::seq_lib::to_multiset_contains(sorted_by(s, key), x);
        vstd::seq_lib::to_multiset_contains(s, x);
    }
}

/// No two items of the list have the same mark.
pub open spec fn distinct_by<V, M>(s: Seq<V>, mark: spec_fn(V) -> M) -> bool {
    forall|i: int, j: int| 0 <= i < j < s.len() ==> mark(s[i]) != mark(s[j])
}

/// Sorting a list whose items have different marks gives such a list.
pub proof fn lemma_sorted_by_distinct<V, M>(
    s: Seq<V>,
    key: spec_fn(V) -> SortKey,
    mark: spec_fn(V) -> M,
)
    requires
        distinct_by(s, mark),
    ensures
        distinct_by(sorted_by(s, key), mark),
    decreases s.len(),
{
    if s.len() > 0 {
        let front = s.drop_last();
        assert(distinct_by(front, mark)) by {
            assert forall|i: int, j: int| 0 <= i < j < front.len() implies mark(front[i]) != mark(
                front[j],
            ) by {
                assert(front[i] == s[i] && front[j] == s[j]);
            }
        }
        lemma_sorted_by_distinct(front, key, mark);
        lemma_sorted_by_members(front, key);
        let before = sorted_by(front, key);
        lemma_insert_point(before, s.last(), key);
        let p = insert_point(before, s.last(), key) as int;
        let after = sorted_by(s, key);
        assert forall|i: int, j: int| 0 <= i < j < after.len() implies mark(after[i]) != mark(
            after[j],
        ) by {
            let old_i = if i < p {
                i
            } else {
                i - 1
            };
            let old_j = if j < p {
                j
            } else {
                j - 1
            };
            if i == p {
                assert(after[j] == before[old_j]);
                assert(before.contains(before[old_j]));
                assert(front.contains(before[old_j]));
                let k = choose|k: int| 0 <= k < front.len() && front[k] == before[old_j];
                assert(s[k] == front[k]);
            } else if j == p {
                assert(after[i] == before[old_i]);
                assert(before.contains(before[old_i]));
                assert(front.contains(before[old_i]));
                let k = choose|k: int| 0 <= k < front.len() && front[k] == before[old_i];
                assert(s[k] == front[k]);
            } else {
                assert(after[i] == before[old_i] && after[j] == before[old_j]);
            }
        }
    }
}

/// Compares two keys given by their parts.
pub fn key_le_exec(
    rank_a: u64,
    major_a: &str,
    minor_a: &str,
    rank_b: u64,
    major_b: &str,
    minor_b: &str,
) -> (r: bool)
    ensures
        r == key_le(
            SortKey { rank: rank_a as int, major: major_a@, minor: minor_a@ },
            SortKey { rank: rank_b as int, major: major_b@, minor: minor_b@ },
        ),
{
    if rank_a != rank_b {
        rank_a < rank_b
    } else if !crate::text::text_eq(major_a, major_b) {
        text_le_exec(major_a, major_b)
    } else {
        text_le_exec(minor_a, minor_b)
    }
}

/// An item that can be ranked.
pub trait Ranked: View + Sized {
    /// The key of an item, read from its view.
    spec fn rank_of(v: Self::V) -> SortKey;

    /// Whether `self` ranks before `other` or with it.
    fn ranks_up_to(&self, other: &Self) -> (r: bool)
        ensures
            r == key_le(Self::rank_of(self@), Self::rank_of(other@)),
    ;
}

/// The key function of a type of items.
pub open spec fn ranking<T: Ranked>() -> spec_fn(T::V) -> SortKey {
    |v: T::V| T::rank_of(v)
}

impl Ranked for String {
    open spec fn rank_of(v: Seq<char>) -> SortKey {
        SortKey { rank: 0, major: v, minor: ""@ }
    }

    fn ranks_up_to(&self, other: &Self) -> (r: bool) {
        key_le_exec(0, self.as_str(), "", 0, other.as_str(), "")
    }
}

/// Sorts into ascending order; items of equal rank keep their order.
pub fn sort_ranked<T: Ranked>(items: Vec<T>) -> (r: Vec<T>)
    ensures
        views_of(r@) == sorted_by(views_of(items@), ranking::<T>()),
{
    let ghost all = views_of(items@);
    let mut rest = items;
    let mut out: Vec<T> = Vec::new();
    let ghost mut done: int = 0;
    assert(all.take(0) =~= Seq::<T::V>::empty());
    assert(views_of(out@) =~= Seq::<T::V>::empty());
    assert(all.skip(0) =~= all);
    while rest.len() > 0
        invariant
            0 <= done <= all.len(),
            views_of(rest@) == all.skip(done),
            views_of(out@) == sorted_by(all.take(done), ranking::<T>()),
        decreases rest.len(),
    {
        proof {
            assert(views_of(rest@).len() == rest@.len());
            assert(done < all.len());
            assert(views_of(rest@)[0] == rest@[0]@);
            assert(all.skip(done)[0] == all[done]);
        }
        let ghost rest_before = rest@;
        let x = rest.remove(0);
        assert(x@ == all[done]);
        assert(views_of(rest@) =~= all.skip(done + 1)) by {
            assert forall|i: int| 0 <= i < rest@.len() implies views_of(rest@)[i] == all.skip(
                done + 1,
            )[i] by {
                assert(rest@[i] == rest_before[i + 1]);
                assert(views_of(rest_before)[i + 1] == rest_before[i + 1]@);
                assert(all.skip(done)[i + 1] == all[done + i + 1]);
            }
        }
        let ghost sorted_before = views_of(out@);
        let mut p: usize = 0;
        assert(sorted_before.skip(0) =~= sorted_before);
        while p < out.len() && out[p].ranks_up_to(&x)
            invariant
                p <= out.len(),
                sorted_before == views_of(out@),
                views_of(rest@) == all.skip(done + 1),
                insert_point(sorted_before, x@, ranking::<T>()) == p + insert_point(
                    sorted_before.skip(p as int),
                    x@,
                    ranking::<T>(),
                ),
            decreases out.len() - p,
        {
            proof {
                let tail = sorted_before.skip(p as int);
                assert(tail[0] == out@[p as int]@);
                assert(tail.drop_first() =~= sorted_before.skip(p + 1));
            }
            p += 1;
        }
        proof {
            let tail = sorted_before.skip(p as int);
            if p < out.len() {
                assert(tail[0] == out@[p as int]@);
            }
            assert(insert_point(sorted_before, x@, ranking::<T>()) == p);
        }
        out.insert(p, x);
        proof {
            assert(views_of(out@) =~= sorted_before.insert(p as int, x@));
            assert(all.take(done + 1).drop_last() =~= all.take(done));
            assert(all.take(done + 1).last() == x@);
            done = done + 1;
        }
    }
    assert(all.take(all.len() as int) =~= all);
    out
}

} // verus!
