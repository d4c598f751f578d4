//! Conflicts: two sources that send to one universe during the same time.

use super::table::{distinct, model_keys};
use super::universes::{
    keys_are_distinct, universe_numbers, SourceStatsView, UniverseStats, UniverseStatsView,
    UniverseTable,
};
use crate::order::{
    distinct_by, key_le_exec, lemma_sorted_by, lemma_sorted_by_distinct, lemma_sorted_by_members,
    ranking, sort_ranked, sorted_by, Ranked, SortKey,
};
use crate::report::{views_of, ConflictSummary, ConflictSummaryView};
use crate::text::texts_of;
use vstd::prelude::*;
use vstd::string::*;

verus! {

/// Two sources conflict where they overlap for more than one second.
pub const CONFLICT_MIN_OVERLAP_US: u64 = 1_000_000;

/// A source and the time during which it sent.
pub struct SourceSpan {
    pub key: String,
    pub first_ts: Option<u64>,
    pub last_ts: Option<u64>,
}

/// The view of `SourceSpan`: its texts as characters, its lists as sequences.
pub struct SourceSpanView {
    pub key: Seq<char>,
    pub first_ts: Option<u64>,
    pub last_ts: Option<u64>,
}

impl View for SourceSpan {
    type V = SourceSpanView;

    open spec fn view(&self) -> SourceSpanView {
        SourceSpanView { key: self.key@, first_ts: self.first_ts, last_ts: self.last_ts }
    }
}

impl Ranked for SourceSpan {
    /// Sources are compared in the order of their identities.
    open spec fn rank_of(v: SourceSpanView) -> SortKey {
        SortKey { rank: 0, major: v.key, minor: ""@ }
    }

    fn ranks_up_to(&self, other: &Self) -> (r: bool) {
        key_le_exec(0, self.key.as_str(), "", 0, other.key.as_str(), "")
    }
}

/// The sources of a universe with their times, in the order of the table.
pub open spec fn spans_of(m: Seq<(Seq<char>, SourceStatsView)>) -> Seq<SourceSpanView> {
    Seq::new(
        m.len(),
        |i: int| SourceSpanView { key: m[i].0, first_ts: m[i].1.first_ts, last_ts: m[i].1.last_ts },
    )
}

/// For how long both sources were sending: from the later start to the
/// earlier end, and zero where one ended before the other began. Unknown
/// where a source has no times.
pub open spec fn overlap_of(a: SourceSpanView, b: SourceSpanView) -> Option<u64> {
    match (a.first_ts, a.last_ts, b.first_ts, b.last_ts) {
        (Some(start_a), Some(end_a), Some(start_b), Some(end_b)) => {
            let end = if end_a < end_b {
                end_a
            } else {
                end_b
            };
            let start = if start_a > start_b {
                start_a
            } else {
                start_b
            };
            if end > start {
                Some((end - start) as u64)
            } else {
                Some(0)
            }
        },
        _ => None,
    }
}

/// Whether the two sources conflict.
pub open spec fn conflicting(a: SourceSpanView, b: SourceSpanView) -> bool {
    match overlap_of(a, b) {
        Some(overlap) => overlap > CONFLICT_MIN_OVERLAP_US,
        None => false,
    }
}

/// The record of a conflict between `a` and `b` on `universe`.
pub open spec fn conflict_record(universe: u16, a: SourceSpanView, b: SourceSpanView) -> ConflictSummaryView {
    ConflictSummaryView {
        universe,
        sources: seq![a.key, b.key],
        overlap_duration_us: overlap_of(a, b)->Some_0,
        affected_channels: Seq::empty(),
        severity: "medium"@,
        conflict_score: overlap_of(a, b)->Some_0,
    }
}

/// The conflicts of the pairs `(i, j)`, `(i, j + 1)`, .. and of all pairs
/// that begin after `i`, each pair taken once with its first source first.
pub open spec fn pair_conflicts(universe: u16, spans: Seq<SourceSpanView>, i: int, j: int) -> Seq<
    ConflictSummaryView,
>
    decreases spans.len() - i, spans.len() - j,
{
    if i < 0 || j <= i || i >= spans.len() {
        Seq::empty()
    } else if j >= spans.len() {
        pair_conflicts(universe, spans, i + 1, i + 2)
    } else if conflicting(spans[i], spans[j]) {
        seq![conflict_record(universe, spans[i], spans[j])] + pair_conflicts(
            universe,
            spans,
            i,
            j + 1,
        )
    } else {
        pair_conflicts(universe, spans, i, j + 1)
    }
}

/// The conflicts of one universe: its sources are put in the order of their
/// identities, and every pair of them is looked at once.
pub open spec fn universe_conflicts(universe: u16, u: UniverseStatsView) -> Seq<ConflictSummaryView> {
    pair_conflicts(universe, sorted_by(spans_of(u.per_source), ranking::<SourceSpan>()), 0, 1)
}

/// The conflicts of all universes, universe after universe.
pub open spec fn all_conflicts(m: Seq<(u16, UniverseStatsView)>) -> Seq<ConflictSummaryView>
    decreases m.len(),
{
    if m.len() == 0 {
        Seq::empty()
    } else {
        all_conflicts(m.drop_last()) + universe_conflicts(m.last().0, m.last().1)
    }
}

/// The conflicts of all universes, by universe and sources.
pub open spec fn conflicts_of(m: Seq<(u16, UniverseStatsView)>) -> Seq<ConflictSummaryView> {
    sorted_by(all_conflicts(m), ranking::<ConflictSummary>())
}

/// Whether `r` is the record of the conflict between the sources `i` and
/// `j` of the universe, `i` before `j`.
pub open spec fn records_pair(
    universe: u16,
    spans: Seq<SourceSpanView>,
    r: ConflictSummaryView,
    i: int,
    j: int,
) -> bool {
    &&& 0 <= i < j < spans.len()
    &&& conflicting(spans[i], spans[j])
    &&& r == conflict_record(universe, spans[i], spans[j])
}

/// Whether `r` is the record of a pair that comes at `(i0, j0)` or later.
pub open spec fn records_later_pair(
    universe: u16,
    spans: Seq<SourceSpanView>,
    r: ConflictSummaryView,
    i0: int,
    j0: int,
) -> bool {
    exists|i: int, j: int|
        #[trigger] records_pair(universe, spans, r, i, j) && (i > i0 || (i == i0 && j >= j0))
}

/// The identity of a source.
pub open spec fn span_key() -> spec_fn(SourceSpanView) -> Seq<char> {
    |s: SourceSpanView| s.key
}

proof fn lemma_pair_conflicts_origin(universe: u16, spans: Seq<SourceSpanView>, i0: int, j0: int)
    requires
        0 <= i0 < j0,
    ensures
        forall|r: ConflictSummaryView|
            pair_conflicts(universe, spans, i0, j0).contains(r) ==> records_later_pair(
                universe,
                spans,
                r,
                i0,
                j0,
            ),
    decreases spans.len() - i0, spans.len() - j0,
{
    let all = pair_conflicts(universe, spans, i0, j0);
    if i0 >= spans.len() {
    } else if j0 >= spans.len() {
        lemma_pair_conflicts_origin(universe, spans, i0 + 1, i0 + 2);
        assert forall|r: ConflictSummaryView| all.contains(r) implies records_later_pair(
            universe,
            spans,
            r,
            i0,
            j0,
        ) by {
            assert(records_later_pair(universe, spans, r, i0 + 1, i0 + 2));
            let (i, j) = choose|i: int, j: int|
                #[trigger] records_pair(universe, spans, r, i, j) && (i > i0 + 1 || (i == i0 + 1
                    && j >= i0 + 2));
            assert(records_pair(universe, spans, r, i, j));
        }
    } else {
        lemma_pair_conflicts_origin(universe, spans, i0, j0 + 1);
        let rest = pair_conflicts(universe, spans, i0, j0 + 1);
        assert forall|r: ConflictSummaryView| all.contains(r) implies records_later_pair(
            universe,
            spans,
            r,
            i0,
            j0,
        ) by {
            let k = choose|k: int| 0 <= k < all.len() && all[k] == r;
            if conflicting(spans[i0], spans[j0]) && k == 0 {
                assert(records_pair(universe, spans, r, i0, j0));
            } else {
                if conflicting(spans[i0], spans[j0]) {
                    assert(rest[k - 1] == r);
                }
                assert(rest.contains(r));
                assert(records_later_pair(universe, spans, r, i0, j0 + 1));
                let (i, j) = choose|i: int, j: int|
                    #[trigger] records_pair(universe, spans, r, i, j) && (i > i0 || (i == i0 && j
                        >= j0 + 1));
                assert(records_pair(universe, spans, r, i, j));
            }
        }
    }
}

proof fn lemma_pair_conflicts_has(
    universe: u16,
    spans: Seq<SourceSpanView>,
    i0: int,
    j0: int,
    i: int,
    j: int,
)
    requires
        0 <= i0 < j0,
        0 <= i < j < spans.len(),
        conflicting(spans[i], spans[j]),
        i > i0 || (i == i0 && j >= j0),
    ensures
        pair_conflicts(universe, spans, i0, j0).contains(
            conflict_record(universe, spans[i], spans[j]),
        ),
    decreases spans.len() - i0, spans.len() - j0,
{
    let all = pair_conflicts(universe, spans, i0, j0);
    let r = conflict_record(universe, spans[i], spans[j]);
    if j0 >= spans.len() {
        lemma_pair_conflicts_has(universe, spans, i0 + 1, i0 + 2, i, j);
    } else if i == i0 && j == j0 {
        assert(all[0] == r);
    } else {
        lemma_pair_conflicts_has(universe, spans, i0, j0 + 1, i, j);
        let rest = pair_conflicts(universe, spans, i0, j0 + 1);
        let k = choose|k: int| 0 <= k < rest.len() && rest[k] == r;
        if conflicting(spans[i0], spans[j0]) {
            assert(all[k + 1] == r);
        }
    }
}

proof fn lemma_pair_conflicts_once(universe: u16, spans: Seq<SourceSpanView>, i0: int, j0: int)
    requires
        0 <= i0 < j0,
        distinct_by(spans, span_key()),
    ensures
        pair_conflicts(universe, spans, i0, j0).no_duplicates(),
    decreases spans.len() - i0, spans.len() - j0,
{
    let all = pair_conflicts(universe, spans, i0, j0);
    if i0 >= spans.len() {
    } else if j0 >= spans.len() {
        lemma_pair_conflicts_once(universe, spans, i0 + 1, i0 + 2);
    } else {
        lemma_pair_conflicts_once(universe, spans, i0, j0 + 1);
        lemma_pair_conflicts_origin(universe, spans, i0, j0 + 1);
        let rest = pair_conflicts(universe, spans, i0, j0 + 1);
        if conflicting(spans[i0], spans[j0]) {
            let first = conflict_record(universe, spans[i0], spans[j0]);
            assert(!rest.contains(first)) by {
                if rest.contains(first) {
                    assert(records_later_pair(universe, spans, first, i0, j0 + 1));
                    let (i, j) = choose|i: int, j: int|
                        #[trigger] records_pair(universe, spans, first, i, j) && (i > i0 || (i
                            == i0 && j >= j0 + 1));
                    let other = conflict_record(universe, spans[i], spans[j]);
                    assert(first.sources[0] == spans[i0].key && first.sources[1] == spans[j0].key);
                    assert(other.sources[0] == spans[i].key && other.sources[1] == spans[j].key);
                    assert(span_key()(spans[i]) == spans[i].key);
                    assert(span_key()(spans[i0]) == spans[i0].key);
                    assert(span_key()(spans[j]) == spans[j].key);
                    assert(span_key()(spans[j0]) == spans[j0].key);
                }
            }
            assert forall|a: int, b: int| 0 <= a < all.len() && 0 <= b < all.len() && a
                != b implies all[a] != all[b] by {
                if a == 0 {
                    assert(all[b] == rest[b - 1]);
                    assert(rest.contains(rest[b - 1]));
                } else if b == 0 {
                    assert(all[a] == rest[a - 1]);
                    assert(rest.contains(rest[a - 1]));
                } else {
                    assert(all[a] == rest[a - 1] && all[b] == rest[b - 1]);
                }
            }
        }
    }
}

/// The sources of a universe in the order in which conflicts compare them.
pub open spec fn compared_spans(u: UniverseStatsView) -> Seq<SourceSpanView> {
    sorted_by(spans_of(u.per_source), ranking::<SourceSpan>())
}

/// Every record of a conflict is that of a pair of sources of one universe
/// that overlap for more than one second: no conflict is reported for a
/// shorter overlap.
pub proof fn lemma_conflicts_exceed_threshold(m: Seq<(u16, UniverseStatsView)>)
    ensures
        forall|k: int|
            0 <= k < conflicts_of(m).len() ==> (#[trigger] conflicts_of(m)[k]).overlap_duration_us
                > CONFLICT_MIN_OVERLAP_US,
        forall|r: ConflictSummaryView|
            conflicts_of(m).contains(r) ==> exists|e: int|
                0 <= e < m.len() && #[trigger] records_later_pair(
                    m[e].0,
                    compared_spans(m[e].1),
                    r,
                    0,
                    1,
                ),
{
    lemma_all_conflicts_origin(m);
    lemma_sorted_by_members(all_conflicts(m), ranking::<ConflictSummary>());
    assert forall|r: ConflictSummaryView| conflicts_of(m).contains(r) implies exists|e: int|
        0 <= e < m.len() && #[trigger] records_later_pair(
            m[e].0,
            compared_spans(m[e].1),
            r,
            0,
            1,
        ) by {
        assert(all_conflicts(m).contains(r));
    }
    assert forall|k: int| 0 <= k < conflicts_of(m).len() implies (
    #[trigger] conflicts_of(m)[k]).overlap_duration_us > CONFLICT_MIN_OVERLAP_US by {
        let r = conflicts_of(m)[k];
        assert(conflicts_of(m).contains(r));
        assert(all_conflicts(m).contains(r));
        let e = choose|e: int|
            0 <= e < m.len() && #[trigger] records_later_pair(
                m[e].0,
                compared_spans(m[e].1),
                r,
                0,
                1,
            );
        let (i, j) = choose|i: int, j: int|
            #[trigger] records_pair(m[e].0, compared_spans(m[e].1), r, i, j) && (i > 0 || (i == 0
                && j >= 1));
    }
}

proof fn lemma_all_conflicts_origin(m: Seq<(u16, UniverseStatsView)>)
    ensures
        forall|r: ConflictSummaryView|
            all_conflicts(m).contains(r) ==> exists|e: int|
                0 <= e < m.len() && #[trigger] records_later_pair(
                    m[e].0,
                    compared_spans(m[e].1),
                    r,
                    0,
                    1,
                ),
    decreases m.len(),
{
    if m.len() > 0 {
        let front = m.drop_last();
        lemma_all_conflicts_origin(front);
        let last = universe_conflicts(m.last().0, m.last().1);
        lemma_pair_conflicts_origin(m.last().0, compared_spans(m.last().1), 0, 1);
        assert forall|r: ConflictSummaryView| all_conflicts(m).contains(r) implies exists|e: int|
            0 <= e < m.len() && #[trigger] records_later_pair(
                m[e].0,
                compared_spans(m[e].1),
                r,
                0,
                1,
            ) by {
            let all = all_conflicts(m);
            let k = choose|k: int| 0 <= k < all.len() && all[k] == r;
            if k < all_conflicts(front).len() {
                assert(all_conflicts(front)[k] == r);
                assert(all_conflicts(front).contains(r));
                let e = choose|e: int|
                    0 <= e < front.len() && #[trigger] records_later_pair(
                        front[e].0,
                        compared_spans(front[e].1),
                        r,
                        0,
                        1,
                    );
                assert(front[e] == m[e]);
                assert(records_later_pair(m[e].0, compared_spans(m[e].1), r, 0, 1));
            } else {
                assert(last[k - all_conflicts(front).len()] == r);
                assert(last.contains(r));
                assert(records_later_pair(
                    m[m.len() - 1].0,
                    compared_spans(m[m.len() - 1].1),
                    r,
                    0,
                    1,
                ));
            }
        }
    }
}

proof fn lemma_all_conflicts_has(m: Seq<(u16, UniverseStatsView)>, e: int, r: ConflictSummaryView)
    requires
        0 <= e < m.len(),
        universe_conflicts(m[e].0, m[e].1).contains(r),
    ensures
        all_conflicts(m).contains(r),
    decreases m.len(),
{
    let front = m.drop_last();
    let last = universe_conflicts(m.last().0, m.last().1);
    let all = all_conflicts(m);
    if e == m.len() - 1 {
        let k = choose|k: int| 0 <= k < last.len() && last[k] == r;
        assert(all[all_conflicts(front).len() + k] == r);
    } else {
        assert(front[e] == m[e]);
        lemma_all_conflicts_has(front, e, r);
        let k = choose|k: int| 0 <= k < all_conflicts(front).len() && all_conflicts(front)[k] == r;
        assert(all[k] == r);
    }
}

/// Every pair of sources of a universe that overlap for more than one
/// second is reported, with the source that compares lower first.
pub proof fn lemma_conflicting_pair_is_reported(
    m: Seq<(u16, UniverseStatsView)>,
    e: int,
    i: int,
    j: int,
)
    requires
        0 <= e < m.len(),
        0 <= i < j < compared_spans(m[e].1).len(),
        conflicting(compared_spans(m[e].1)[i], compared_spans(m[e].1)[j]),
    ensures
        conflicts_of(m).contains(
            conflict_record(m[e].0, compared_spans(m[e].1)[i], compared_spans(m[e].1)[j]),
        ),
{
    let spans = compared_spans(m[e].1);
    let r = conflict_record(m[e].0, spans[i], spans[j]);
    lemma_pair_conflicts_has(m[e].0, spans, 0, 1, i, j);
    lemma_all_conflicts_has(m, e, r);
    lemma_sorted_by_members(all_conflicts(m), ranking::<ConflictSummary>());
}

proof fn lemma_all_conflicts_once(m: Seq<(u16, UniverseStatsView)>)
    requires
        keys_are_distinct(m),
    ensures
        all_conflicts(m).no_duplicates(),
    decreases m.len(),
{
    if m.len() > 0 {
        let front = m.drop_last();
        assert(keys_are_distinct(front)) by {
            assert forall|a: int, b: int| 0 <= a < b < front.len() implies universe_numbers(
                front,
            )[a] != universe_numbers(front)[b] by {
                assert(universe_numbers(m)[a] != universe_numbers(m)[b]);
            }
            assert forall|e: int| 0 <= e < front.len() implies distinct(
                model_keys((#[trigger] front[e]).1.per_source),
            ) by {
                assert(front[e] == m[e]);
            }
        }
        lemma_all_conflicts_once(front);
        lemma_all_conflicts_origin(front);
        let u = m.last().0;
        let spans = compared_spans(m.last().1);
        let last = universe_conflicts(u, m.last().1);
        let unsorted = spans_of(m.last().1.per_source);
        assert(distinct_by(unsorted, span_key())) by {
            let keys = model_keys(m[m.len() - 1].1.per_source);
            assert(distinct(keys));
            assert forall|a: int, b: int| 0 <= a < b < unsorted.len() implies span_key()(
                unsorted[a],
            ) != span_key()(unsorted[b]) by {
                assert(keys[a] != keys[b]);
            }
        }
        lemma_sorted_by_distinct(unsorted, ranking::<SourceSpan>(), span_key());
        lemma_pair_conflicts_once(u, spans, 0, 1);
        lemma_pair_conflicts_origin(u, spans, 0, 1);
        let head = all_conflicts(front);
        let all = all_conflicts(m);
        assert forall|a: int, b: int| 0 <= a < all.len() && 0 <= b < all.len() && a
            != b implies all[a] != all[b] by {
            if a < head.len() && b < head.len() {
                assert(all[a] == head[a] && all[b] == head[b]);
            } else if a >= head.len() && b >= head.len() {
                assert(all[a] == last[a - head.len()] && all[b] == last[b - head.len()]);
            } else {
                let (x, y) = if a < head.len() {
                    (a, b)
                } else {
                    (b, a)
                };
                let r = head[x];
                let q = last[y - head.len()];
                assert(all[x] == r && all[y] == q);
                assert(head.contains(r));
                assert(last.contains(q));
                let e = choose|e: int|
                    0 <= e < front.len() && #[trigger] records_later_pair(
                        front[e].0,
                        compared_spans(front[e].1),
                        r,
                        0,
                        1,
                    );
                let (i, j) = choose|i: int, j: int|
                    #[trigger] records_pair(front[e].0, compared_spans(front[e].1), r, i, j) && (i
                        > 0 || (i == 0 && j >= 1));
                assert(records_later_pair(u, spans, q, 0, 1));
                let (i2, j2) = choose|i2: int, j2: int|
                    #[trigger] records_pair(u, spans, q, i2, j2) && (i2 > 0 || (i2 == 0 && j2
                        >= 1));
                assert(r.universe == front[e].0);
                assert(q.universe == u);
                assert(universe_numbers(m)[e] == m[e].0 && front[e] == m[e]);
                assert(universe_numbers(m)[m.len() - 1] == u);
            }
        }
    }
}

/// Where no universe and no source is held twice, every pair of sources that
/// overlap for more than one second has exactly one record.
pub proof fn lemma_conflict_is_reported_once(
    m: Seq<(u16, UniverseStatsView)>,
    e: int,
    i: int,
    j: int,
)
    requires
        keys_are_distinct(m),
        0 <= e < m.len(),
        0 <= i < j < compared_spans(m[e].1).len(),
        conflicting(compared_spans(m[e].1)[i], compared_spans(m[e].1)[j]),
    ensures
        conflicts_of(m).to_multiset().count(
            conflict_record(m[e].0, compared_spans(m[e].1)[i], compared_spans(m[e].1)[j]),
        ) == 1,
{
    let r = conflict_record(m[e].0, compared_spans(m[e].1)[i], compared_spans(m[e].1)[j]);
    lemma_conflicting_pair_is_reported(m, e, i, j);
    lemma_all_conflicts_once(m);
    all_conflicts(m).lemma_multiset_has_no_duplicates();
    lemma_sorted_by(all_conflicts(m), ranking::<ConflictSummary>());
    vstd::seq_lib::to_multiset_contains(conflicts_of(m), r);
}

/// Reserved: conflicts are reported for a universe as a whole.
pub fn compute_affected_channels() -> (r: Vec<u16>)
    ensures
        r@ == Seq::<u16>::empty(),
{
    Vec::new()
}

/// The name under which a source appears in a conflict: its identity.
pub fn source_label(key: &str) -> (r: String)
    ensures
        r@ == key@,
{
    String::from_str(key)
}

fn overlap(a: &SourceSpan, b: &SourceSpan) -> (r: Option<u64>)
    ensures
        r == overlap_of(a@, b@),
{
    let (start_a, end_a) = match (a.first_ts, a.last_ts) {
        (Some(start), Some(end)) => (start, end),
        _ => { return None; },
    };
    let (start_b, end_b) = match (b.first_ts, b.last_ts) {
        (Some(start), Some(end)) => (start, end),
        _ => { return None; },
    };
    let end: u64 = if end_a < end_b {
        end_a
    } else {
        end_b
    };
    let start: u64 = if start_a > start_b {
        start_a
    } else {
        start_b
    };
    if end > start {
        Some(end - start)
    } else {
        Some(0)
    }
}

fn sorted_spans(stats: &UniverseStats) -> (r: Vec<SourceSpan>)
    ensures
        views_of(r@) == sorted_by(spans_of(stats@.per_source), ranking::<SourceSpan>()),
{
    let mut spans: Vec<SourceSpan> = Vec::new();
    let ghost all = spans_of(stats@.per_source);
    let mut i: usize = 0;
    while i < stats.per_source.entries.len()
        invariant
            i <= stats.per_source.entries.len(),
            all == spans_of(stats@.per_source),
            views_of(spans@) =~= all.take(i as int),
        decreases stats.per_source.entries.len() - i,
    {
        let entry = &stats.per_source.entries[i];
        let span = SourceSpan {
            key: entry.key.clone(),
            first_ts: entry.value.first_ts,
            last_ts: entry.value.last_ts,
        };
        assert(all[i as int] == span@);
        let ghost before = views_of(spans@);
        spans.push(span);
        assert(views_of(spans@) =~= before.push(span@));
        i += 1;
    }
    assert(all.take(all.len() as int) =~= all);
    sort_ranked(spans)
}

fn append_universe_conflicts(out: &mut Vec<ConflictSummary>, universe: u16, stats: &UniverseStats)
    ensures
        views_of(final(out)@) == views_of(old(out)@) + universe_conflicts(universe, stats@),
{
    let spans = sorted_spans(stats);
    let ghost sv = views_of(spans@);
    let ghost start = views_of(out@);
    let ghost total = pair_conflicts(universe, sv, 0, 1);
    let mut i: usize = 0;
    assert(start + total =~= start + pair_conflicts(universe, sv, 0, 1));
    assert(views_of(out@) + pair_conflicts(universe, sv, 0, 1) =~= start + total);
    while i < spans.len()
        invariant
            i <= spans.len(),
            sv == views_of(spans@),
            sv.len() == spans@.len(),
            views_of(out@) + pair_conflicts(universe, sv, i as int, i + 1) == start + total,
        decreases spans.len() - i,
    {
        let mut j: usize = i + 1;
        while j < spans.len()
            invariant
                i < j <= spans.len(),
                sv == views_of(spans@),
                sv.len() == spans@.len(),
                views_of(out@) + pair_conflicts(universe, sv, i as int, j as int) == start + total,
            decreases spans.len() - j,
        {
            let a = &spans[i];
            let b = &spans[j];
            assert(sv[i as int] == a@ && sv[j as int] == b@);
            let ghost before = views_of(out@);
            let ghost rest = pair_conflicts(universe, sv, i as int, j + 1);
            match overlap(a, b) {
                Some(duration) => {
                    if duration > CONFLICT_MIN_OVERLAP_US {
                        let mut sources: Vec<String> = Vec::new();
                        sources.push(source_label(a.key.as_str()));
                        sources.push(source_label(b.key.as_str()));
                        let record = ConflictSummary {
                            universe,
                            sources,
                            overlap_duration_us: duration,
                            affected_channels: compute_affected_channels(),
                            severity: String::from_str("medium"),
                            conflict_score: duration,
                        };
                        proof {
                            assert(texts_of(record.sources@) =~= seq![a@.key, b@.key]);
                            assert(record@ == conflict_record(universe, a@, b@));
                        }
                        out.push(record);
                        proof {
                            assert(views_of(out@) =~= before.push(record@));
                            assert(before.push(record@) + rest =~= before + (seq![record@] + rest));
                        }
                    }
                },
                None => {},
            }
            j += 1;
        }
        assert(pair_conflicts(universe, sv, i as int, j as int) == pair_conflicts(
            universe,
            sv,
            i + 1,
            i + 2,
        ));
        i += 1;
    }
    assert(pair_conflicts(universe, sv, spans.len() as int, spans.len() + 1)
        =~= Seq::<ConflictSummaryView>::empty());
    assert(views_of(out@) + Seq::<ConflictSummaryView>::empty() =~= views_of(out@));
}

/// Finds the conflicts of all universes.
///
/// Within a universe every pair of sources is looked at once, in the order
/// of the source identities, and is reported where both sources have times
/// and overlap for more than one second. The records are sorted by universe
/// and sources.
pub fn build_conflicts(stats: &UniverseTable) -> (r: Vec<ConflictSummary>)
    ensures
        views_of(r@) == conflicts_of(stats@),
{
    let mut conflicts: Vec<ConflictSummary> = Vec::new();
    let mut i: usize = 0;
    assert(stats@.take(0) =~= Seq::<(u16, UniverseStatsView)>::empty());
    assert(views_of(conflicts@) =~= Seq::<ConflictSummaryView>::empty());
    while i < stats.entries.len()
        invariant
            i <= stats.entries.len(),
            views_of(conflicts@) == all_conflicts(stats@.take(i as int)),
        decreases stats.entries.len() - i,
    {
        proof {
            assert(stats@.take(i + 1).drop_last() =~= stats@.take(i as int));
            assert(stats@.take(i + 1).last() == (
                stats.entries@[i as int].universe,
                stats.entries@[i as int].stats@,
            ));
        }
        append_universe_conflicts(&mut conflicts, stats.entries[i].universe, &stats.entries[i].stats);
        i += 1;
    }
    assert(stats@.take(stats.entries.len() as int) =~= stats@);
    sort_ranked(conflicts)
}

} // verus!
