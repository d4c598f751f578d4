//! The compliance record: violations counted per protocol and identifier,
//! each with up to three different examples.

use super::table::{
    distinct, index_of, keys_after, lemma_index_of, lemma_index_of_prefix,
    lemma_keys_after_distinct, model_keys, Entry, Table,
};
use super::window::sat_add;
use crate::order::{ranking, sort_ranked, sorted_by};
use crate::report::{views_of, ComplianceSummary, ComplianceSummaryView, Violation, ViolationView};
use crate::text::{
    has_prefix, lower, lower_text, starts_with, text_eq, texts_of, trim, trimmed,
};
use vstd::prelude::*;
use vstd::string::*;

verus! {

/// A violation keeps no more examples than this.
pub const MAX_EXAMPLES: usize = 3;

/// An example as it is recorded: one that does not name its source is
/// marked as of unknown source and time.
pub open spec fn normalized_example(example: Seq<char>) -> Seq<char> {
    if example.len() == 0 {
        "source unknown @ unknown"@
    } else if has_prefix(example, "source "@) {
        example
    } else {
        "source unknown @ unknown; "@ + example
    }
}

/// Writes an example as it is recorded.
pub fn normalize_example(example: &str) -> (r: String)
    ensures
        r@ == normalized_example(example@),
{
    if example.unicode_len() == 0 {
        return String::from_str("source unknown @ unknown");
    }
    if starts_with(example, "source ") {
        return String::from_str(example);
    }
    let mut r = String::from_str("source unknown @ unknown; ");
    r.append(example);
    r
}

/// The identifiers of violations, in order.
pub open spec fn violation_ids(vs: Seq<ViolationView>) -> Seq<Seq<char>> {
    Seq::new(vs.len(), |i: int| vs[i].id)
}

/// A violation after one more occurrence: the example is kept where fewer
/// than three are held and it is not among them.
pub open spec fn violation_step(v: ViolationView, example: Seq<char>) -> ViolationView {
    ViolationView {
        count: sat_add(v.count, 1),
        examples: if v.examples.len() < MAX_EXAMPLES && !v.examples.contains(example) {
            v.examples.push(example)
        } else {
            v.examples
        },
        ..v
    }
}

/// The violations of a protocol after one more occurrence of `id`.
pub open spec fn violations_step(
    vs: Seq<ViolationView>,
    id: Seq<char>,
    severity: Seq<char>,
    message: Seq<char>,
    example: Seq<char>,
) -> Seq<ViolationView> {
    match index_of(violation_ids(vs), id) {
        Some(i) => vs.update(i, violation_step(vs[i], example)),
        None => vs.push(ViolationView { id, severity, message, count: 1, examples: seq![example] }),
    }
}

/// The record of a protocol of which no violation is known.
pub open spec fn clean_summary(protocol: Seq<char>) -> ComplianceSummaryView {
    ComplianceSummaryView { protocol, compliance_percentage: 100, violations: Seq::empty() }
}

/// The compliance record after one more violation. The protocol is trimmed
/// and put in lower case, the other texts are trimmed, and the example is
/// normalized.
pub open spec fn compliance_step(
    m: Seq<(Seq<char>, ComplianceSummaryView)>,
    protocol: Seq<char>,
    id: Seq<char>,
    severity: Seq<char>,
    message: Seq<char>,
    example: Seq<char>,
) -> Seq<(Seq<char>, ComplianceSummaryView)> {
    let key = lower(trim(protocol));
    let example = normalized_example(trim(example));
    match index_of(model_keys(m), key) {
        Some(i) => m.update(
            i,
            (
                key,
                ComplianceSummaryView {
                    violations: violations_step(
                        m[i].1.violations,
                        trim(id),
                        trim(severity),
                        trim(message),
                        example,
                    ),
                    ..m[i].1
                },
            ),
        ),
        None => m.push(
            (
                key,
                ComplianceSummaryView {
                    violations: violations_step(
                        Seq::empty(),
                        trim(id),
                        trim(severity),
                        trim(message),
                        example,
                    ),
                    ..clean_summary(key)
                },
            ),
        ),
    }
}

/// No example occurs twice.
pub open spec fn examples_distinct(examples: Seq<Seq<char>>) -> bool {
    forall|i: int, j: int| 0 <= i < j < examples.len() ==> examples[i] != examples[j]
}

/// A violation holds at most three examples, all different.
pub open spec fn examples_ok(v: ViolationView) -> bool {
    v.examples.len() <= MAX_EXAMPLES && examples_distinct(v.examples)
}

/// Recording keeps the examples of a violation at three or fewer, without
/// duplicates.
pub proof fn lemma_violation_step_keeps_examples(v: ViolationView, example: Seq<char>)
    requires
        examples_ok(v),
    ensures
        examples_ok(violation_step(v, example)),
{
}

/// Every violation of the record holds at most three examples, all
/// different; no protocol is held twice, and no identifier twice for a
/// protocol.
pub open spec fn compliance_ok(m: Seq<(Seq<char>, ComplianceSummaryView)>) -> bool {
    &&& forall|i: int, j: int|
        0 <= i < m.len() && 0 <= j < m[i].1.violations.len() ==> examples_ok(
            #[trigger] m[i].1.violations[j],
        )
    &&& distinct(model_keys(m))
    &&& forall|i: int| 0 <= i < m.len() ==> distinct(violation_ids((#[trigger] m[i]).1.violations))
}

/// Recording a violation keeps every violation at three examples or fewer,
/// without duplicates.
pub proof fn lemma_compliance_step_keeps_examples(
    m: Seq<(Seq<char>, ComplianceSummaryView)>,
    protocol: Seq<char>,
    id: Seq<char>,
    severity: Seq<char>,
    message: Seq<char>,
    example: Seq<char>,
)
    requires
        compliance_ok(m),
    ensures
        compliance_ok(compliance_step(m, protocol, id, severity, message, example)),
{
    let next = compliance_step(m, protocol, id, severity, message, example);
    let key = lower(trim(protocol));
    let text = normalized_example(trim(example));
    lemma_index_of(model_keys(m), key);
    let at = match index_of(model_keys(m), key) {
        Some(k) => k,
        None => m.len() as int,
    };
    let before: Seq<ViolationView> = match index_of(model_keys(m), key) {
        Some(k) => m[k].1.violations,
        None => Seq::empty(),
    };
    let after = violations_step(before, trim(id), trim(severity), trim(message), text);
    assert(next[at].1.violations == after);
    lemma_keys_after_distinct(model_keys(m), key);
    assert(model_keys(next) =~= keys_after(model_keys(m), key));
    assert(distinct(violation_ids(before))) by {
        if index_of(model_keys(m), key) is Some {
            assert(distinct(violation_ids(m[at].1.violations)));
        }
    }
    lemma_keys_after_distinct(violation_ids(before), trim(id));
    lemma_index_of(violation_ids(before), trim(id));
    assert(violation_ids(after) =~= keys_after(violation_ids(before), trim(id)));
    assert forall|i: int| 0 <= i < next.len() implies distinct(
        violation_ids((#[trigger] next[i]).1.violations),
    ) by {
        if i != at {
            assert(next[i] == m[i]);
        }
    }
    assert forall|i: int, j: int|
        0 <= i < next.len() && 0 <= j < next[i].1.violations.len() implies examples_ok(
        #[trigger] next[i].1.violations[j],
    ) by {
        if i != at {
            assert(next[i] == m[i]);
            assert(examples_ok(m[i].1.violations[j]));
        } else {
            lemma_index_of(violation_ids(before), trim(id));
            match index_of(violation_ids(before), trim(id)) {
                Some(k) => {
                    assert(examples_ok(m[at].1.violations[k]));
                    if j == k {
                        lemma_violation_step_keeps_examples(before[k], text);
                    } else {
                        assert(after[j] == before[j]);
                        assert(examples_ok(m[at].1.violations[j]));
                    }
                },
                None => {
                    if j < before.len() {
                        assert(after[j] == before[j]);
                        assert(examples_ok(m[at].1.violations[j]));
                    }
                },
            }
        }
    }
}

fn find_violation(violations: &Vec<Violation>, id: &str) -> (r: Option<usize>)
    ensures
        match r {
            Some(i) => index_of(violation_ids(views_of(violations@)), id@) == Some(i as int) && i
                < violations@.len(),
            None => index_of(violation_ids(views_of(violations@)), id@) is None,
        },
{
    let ghost ids = violation_ids(views_of(violations@));
    let mut i: usize = 0;
    while i < violations.len()
        invariant
            i <= violations.len(),
            ids == violation_ids(views_of(violations@)),
            index_of(ids.take(i as int), id@) is None,
        decreases violations.len() - i,
    {
        proof {
            assert(ids.take(i + 1).drop_last() =~= ids.take(i as int));
        }
        if text_eq(violations[i].id.as_str(), id) {
            proof {
                lemma_index_of_prefix(ids, i + 1, id@);
            }
            return Some(i);
        }
        i += 1;
    }
    assert(ids.take(violations.len() as int) =~= ids);
    None
}

fn holds_example(examples: &Vec<String>, example: &str) -> (r: bool)
    ensures
        r == texts_of(examples@).contains(example@),
{
    let mut i: usize = 0;
    while i < examples.len()
        invariant
            i <= examples.len(),
            forall|k: int| 0 <= k < i ==> texts_of(examples@)[k] != example@,
        decreases examples.len() - i,
    {
        if text_eq(examples[i].as_str(), example) {
            assert(texts_of(examples@)[i as int] == example@);
            return true;
        }
        i += 1;
    }
    false
}

fn record_in(
    violations: &mut Vec<Violation>,
    id: String,
    severity: String,
    message: String,
    example: String,
)
    ensures
        views_of(final(violations)@) == violations_step(
            views_of(old(violations)@),
            id@,
            severity@,
            message@,
            example@,
        ),
{
    match find_violation(violations, id.as_str()) {
        Some(i) => {
            let ghost before = views_of(violations@)[i as int];
            let existing = &mut violations[i];
            existing.count = existing.count.saturating_add(1);
            if existing.examples.len() < MAX_EXAMPLES && !holds_example(
                &existing.examples,
                example.as_str(),
            ) {
                let ghost texts = texts_of(existing.examples@);
                existing.examples.push(example);
                assert(texts_of(existing.examples@) =~= texts.push(example@));
            }
            assert(violations@[i as int]@ == violation_step(before, example@));
            assert(views_of(violations@) =~= views_of(old(violations)@).update(
                i as int,
                violation_step(before, example@),
            ));
        },
        None => {
            let mut examples: Vec<String> = Vec::new();
            examples.push(example);
            let violation = Violation { id, severity, message, count: 1, examples };
            assert(texts_of(violation.examples@) =~= seq![example@]);
            violations.push(violation);
            assert(views_of(violations@) =~= views_of(old(violations)@).push(violation@));
        },
    }
}

/// Records one violation.
pub fn record_violation(
    compliance: &mut Table<ComplianceSummary>,
    protocol: &str,
    id: &str,
    severity: &str,
    message: &str,
    example: String,
)
    ensures
        final(compliance)@ == compliance_step(
            old(compliance)@,
            protocol@,
            id@,
            severity@,
            message@,
            example@,
        ),
{
    let protocol = lower_text(trimmed(protocol).as_str());
    let id = trimmed(id);
    let severity = trimmed(severity);
    let message = trimmed(message);
    let example = normalize_example(trimmed(example.as_str()).as_str());
    proof {
        assert(model_keys(compliance@) =~= compliance.keys());
    }
    match compliance.find(protocol.as_str()) {
        Some(i) => {
            let ghost before = old(compliance)@[i as int].1;
            record_in(&mut compliance.entries[i].value.violations, id, severity, message, example);
            assert(compliance.entries@[i as int].value@ == (ComplianceSummaryView {
                violations: violations_step(
                    before.violations,
                    id@,
                    severity@,
                    message@,
                    example@,
                ),
                ..before
            }));
            assert forall|j: int| 0 <= j < compliance.entries@.len() && j != i implies compliance.entries@[j]
                == old(compliance).entries@[j] by {}
            assert(compliance@ =~= old(compliance)@.update(
                i as int,
                (protocol@, compliance.entries@[i as int].value@),
            ));
        },
        None => {
            let mut violations: Vec<Violation> = Vec::new();
            assert(views_of(violations@) =~= Seq::<ViolationView>::empty());
            record_in(&mut violations, id, severity, message, example);
            let summary = ComplianceSummary {
                protocol: protocol.clone(),
                compliance_percentage: 100,
                violations,
            };
            compliance.entries.push(Entry { key: protocol, value: summary });
            assert(compliance@ =~= old(compliance)@.push((protocol@, summary@)));
        },
    }
}

/// A violation as the report shows it: its examples in order.
pub open spec fn final_violation(v: ViolationView) -> ViolationView {
    ViolationView { examples: sorted_by(v.examples, ranking::<String>()), ..v }
}

/// The record of a protocol as the report shows it: its violations by
/// severity and identifier.
pub open spec fn final_summary(c: ComplianceSummaryView) -> ComplianceSummaryView {
    ComplianceSummaryView {
        violations: sorted_by(
            Seq::new(c.violations.len(), |i: int| final_violation(c.violations[i])),
            ranking::<Violation>(),
        ),
        ..c
    }
}

/// The compliance list of the report: the protocols by name.
pub open spec fn final_compliance(m: Seq<(Seq<char>, ComplianceSummaryView)>) -> Seq<
    ComplianceSummaryView,
> {
    sorted_by(Seq::new(m.len(), |i: int| final_summary(m[i].1)), ranking::<ComplianceSummary>())
}

fn finalize_violation(v: &Violation) -> (r: Violation)
    ensures
        r@ == final_violation(v@),
{
    let mut examples: Vec<String> = Vec::new();
    let mut i: usize = 0;
    while i < v.examples.len()
        invariant
            i <= v.examples.len(),
            views_of(examples@) =~= texts_of(v.examples@).take(i as int),
        decreases v.examples.len() - i,
    {
        let copy = v.examples[i].clone();
        let ghost before = views_of(examples@);
        examples.push(copy);
        assert(views_of(examples@) =~= before.push(copy@));
        i += 1;
    }
    assert(texts_of(v.examples@).take(v.examples.len() as int) =~= texts_of(v.examples@));
    let examples = sort_ranked(examples);
    assert(texts_of(examples@) =~= views_of(examples@));
    Violation {
        id: v.id.clone(),
        severity: v.severity.clone(),
        message: v.message.clone(),
        count: v.count,
        examples,
    }
}

fn finalize_summary(c: &ComplianceSummary) -> (r: ComplianceSummary)
    ensures
        r@ == final_summary(c@),
{
    let mut violations: Vec<Violation> = Vec::new();
    let ghost all = Seq::new(c@.violations.len(), |i: int| final_violation(c@.violations[i]));
    let mut i: usize = 0;
    while i < c.violations.len()
        invariant
            i <= c.violations.len(),
            all == Seq::new(c@.violations.len(), |i: int| final_violation(c@.violations[i])),
            views_of(violations@) =~= all.take(i as int),
        decreases c.violations.len() - i,
    {
        let done = finalize_violation(&c.violations[i]);
        assert(all[i as int] == done@);
        let ghost before = views_of(violations@);
        violations.push(done);
        assert(views_of(violations@) =~= before.push(done@));
        i += 1;
    }
    assert(all.take(all.len() as int) =~= all);
    ComplianceSummary {
        protocol: c.protocol.clone(),
        compliance_percentage: c.compliance_percentage,
        violations: sort_ranked(violations),
    }
}

/// Puts the compliance record in the order of the report: protocols by
/// name, their violations by severity and identifier, examples by text.
pub fn finalize_compliance(compliance: Table<ComplianceSummary>) -> (r: Vec<ComplianceSummary>)
    ensures
        views_of(r@) == final_compliance(compliance@),
{
    let mut entries: Vec<ComplianceSummary> = Vec::new();
    let ghost all = Seq::new(compliance@.len(), |i: int| final_summary(compliance@[i].1));
    let mut i: usize = 0;
    while i < compliance.entries.len()
        invariant
            i <= compliance.entries.len(),
            all == Seq::new(compliance@.len(), |i: int| final_summary(compliance@[i].1)),
            views_of(entries@) =~= all.take(i as int),
        decreases compliance.entries.len() - i,
    {
        let done = finalize_summary(&compliance.entries[i].value);
        assert(all[i as int] == done@);
        let ghost before = views_of(entries@);
        entries.push(done);
        assert(views_of(entries@) =~= before.push(done@));
        i += 1;
    }
    assert(all.take(all.len() as int) =~= all);
    sort_ranked(entries)
}

} // verus!
