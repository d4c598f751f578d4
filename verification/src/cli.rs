//! Decisions of the command line: which inputs are accepted, when a capture
//! that is followed is analysed again, and what is said of violations.

use crate::analysis::universes::{bounds_step, update_ts_bounds};
use crate::order::{key_le_exec, ranking, sort_ranked, sorted_by, Ranked, SortKey};
use crate::report::{views_of, ComplianceSummaryView, Report, ViolationView};
use crate::text::{
    chars_of, decimal, lower, lower_text, optional_text, push_decimal, text_eq, texts_of,
};
use crate::time_text::{rfc3339_of, ts_to_rfc3339};
use vstd::prelude::*;
use vstd::string::*;

verus! {

/// What the command line says when it fails.
#[derive(Debug, Clone)]
pub struct CliError {
    pub message: String,
    pub hint: Option<String>,
}

/// The view of `CliError`: its texts as characters, its lists as sequences.
pub struct CliErrorView {
    pub message: Seq<char>,
    pub hint: Option<Seq<char>>,
}

impl View for CliError {
    type V = CliErrorView;

    open spec fn view(&self) -> CliErrorView {
        CliErrorView { message: self.message@, hint: optional_text(self.hint) }
    }
}

impl CliError {
    /// An error with its message and, where there is one, a hint.
    pub fn new(message: &str, hint: Option<String>) -> (r: Self)
        ensures
            r@ == (CliErrorView { message: message@, hint: optional_text(hint) }),
    {
        CliError { message: String::from_str(message), hint }
    }
}

/// Whether any protocol of the report has a violation.
pub open spec fn any_violation(compliance: Seq<ComplianceSummaryView>) -> bool {
    exists|i: int| 0 <= i < compliance.len() && (#[trigger] compliance[i]).violations.len() > 0
}

/// Whether the report holds a violation.
pub fn has_violations(rep: &Report) -> (r: bool)
    ensures
        r == any_violation(rep@.compliance),
{
    let mut i: usize = 0;
    while i < rep.compliance.len()
        invariant
            i <= rep.compliance.len(),
            forall|k: int| 0 <= k < i ==> (#[trigger] rep@.compliance[k]).violations.len() == 0,
        decreases rep.compliance.len() - i,
    {
        if rep.compliance[i].violations.len() > 0 {
            assert(rep@.compliance[i as int].violations.len() > 0);
            return true;
        }
        assert(rep@.compliance[i as int].violations.len() == 0);
        i += 1;
    }
    false
}

/// One line of the list of violations.
#[derive(Debug, Clone, PartialEq, Eq)]
pub struct ViolationSummary {
    pub protocol: String,
    pub id: String,
    pub count: u64,
}

/// The view of `ViolationSummary`: its texts as characters, its lists as sequences.
pub struct ViolationSummaryView {
    pub protocol: Seq<char>,
    pub id: Seq<char>,
    pub count: u64,
}

impl View for ViolationSummary {
    type V = ViolationSummaryView;

    open spec fn view(&self) -> ViolationSummaryView {
        ViolationSummaryView { protocol: self.protocol@, id: self.id@, count: self.count }
    }
}

impl Ranked for ViolationSummary {
    /// Violations are listed by protocol, then by identifier.
    open spec fn rank_of(v: ViolationSummaryView) -> SortKey {
        SortKey { rank: 0, major: v.protocol, minor: v.id }
    }

    fn ranks_up_to(&self, other: &Self) -> (r: bool) {
        key_le_exec(
            0,
            self.protocol.as_str(),
            self.id.as_str(),
            0,
            other.protocol.as_str(),
            other.id.as_str(),
        )
    }
}

/// The violations of one protocol, in the order of the report.
pub open spec fn lines_of(protocol: Seq<char>, violations: Seq<ViolationView>) -> Seq<
    ViolationSummaryView,
> {
    Seq::new(
        violations.len(),
        |i: int|
            ViolationSummaryView { protocol, id: violations[i].id, count: violations[i].count },
    )
}

/// The violations of all protocols, protocol after protocol.
pub open spec fn all_lines(compliance: Seq<ComplianceSummaryView>) -> Seq<ViolationSummaryView>
    decreases compliance.len(),
{
    if compliance.len() == 0 {
        Seq::empty()
    } else {
        all_lines(compliance.drop_last()) + lines_of(
            compliance.last().protocol,
            compliance.last().violations,
        )
    }
}

/// The violations of a report, by protocol and identifier.
pub fn violations_summary(rep: &Report) -> (r: Vec<ViolationSummary>)
    ensures
        views_of(r@) == sorted_by(all_lines(rep@.compliance), ranking::<ViolationSummary>()),
{
    let mut summary: Vec<ViolationSummary> = Vec::new();
    let ghost compliance = rep@.compliance;
    let mut i: usize = 0;
    assert(compliance.take(0) =~= Seq::<ComplianceSummaryView>::empty());
    assert(views_of(summary@) =~= Seq::<ViolationSummaryView>::empty());
    while i < rep.compliance.len()
        invariant
            i <= rep.compliance.len(),
            compliance == rep@.compliance,
            compliance.len() == rep.compliance@.len(),
            views_of(summary@) == all_lines(compliance.take(i as int)),
        decreases rep.compliance.len() - i,
    {
        let entry = &rep.compliance[i];
        let ghost before = views_of(summary@);
        let ghost lines = lines_of(entry@.protocol, entry@.violations);
        proof {
            assert(compliance.take(i + 1).drop_last() =~= compliance.take(i as int));
            assert(compliance.take(i + 1).last() == entry@);
        }
        let mut j: usize = 0;
        while j < entry.violations.len()
            invariant
                j <= entry.violations.len(),
                lines == lines_of(entry@.protocol, entry@.violations),
                views_of(summary@) =~= before + lines.take(j as int),
            decreases entry.violations.len() - j,
        {
            let violation = &entry.violations[j];
            let line = ViolationSummary {
                protocol: entry.protocol.clone(),
                id: violation.id.clone(),
                count: violation.count,
            };
            assert(lines[j as int] == line@);
            let ghost so_far = views_of(summary@);
            summary.push(line);
            assert(views_of(summary@) =~= so_far.push(line@));
            j += 1;
        }
        assert(lines.take(lines.len() as int) =~= lines);
        i += 1;
    }
    assert(compliance.take(rep.compliance.len() as int) =~= compliance);
    sort_ranked(summary)
}

/// What is seen of a capture file that is followed.
#[derive(Debug, Clone, Copy, PartialEq, Eq, Structural)]
pub struct FollowSeen {
    pub size_bytes: u64,
    /// When the file was last written, in nanoseconds since the Unix epoch,
    /// where the system tells.
    pub modified: Option<u64>,
}

/// Whether a followed capture is to be analysed again, and whether it was
/// rotated. A file that shrank was rotated; one that grew, or that was
/// written later at the same size, has changed; a file seen for the first
/// time is analysed.
pub open spec fn follow_decision(current: FollowSeen, last: Option<FollowSeen>) -> (bool, bool) {
    match last {
        None => (true, false),
        Some(prev) => if current.size_bytes < prev.size_bytes {
            (true, true)
        } else if current.size_bytes > prev.size_bytes {
            (true, false)
        } else {
            match (current.modified, prev.modified) {
                (Some(now), Some(then)) => (now > then, false),
                _ => (false, false),
            }
        },
    }
}

/// Decides whether a followed capture is analysed again, and tells whether
/// it was rotated.
pub fn follow_should_analyze(current: FollowSeen, last: Option<FollowSeen>) -> (r: (bool, bool))
    ensures
        r == follow_decision(current, last),
{
    match last {
        None => (true, false),
        Some(prev) => if current.size_bytes < prev.size_bytes {
            (true, true)
        } else if current.size_bytes > prev.size_bytes {
            (true, false)
        } else {
            match (current.modified, prev.modified) {
                (Some(now), Some(then)) => (now > then, false),
                _ => (false, false),
            }
        },
    }
}

/// Warnings about an incomplete capture are at least this far apart.
pub const WARN_INTERVAL_MS: u64 = 5000;

/// Whether a warning is due at `now_ms`: the first one always is, a later
/// one five seconds after the last. A warning that is due is noted as the
/// last one.
pub fn should_warn(last_warning_ms: &mut Option<u64>, now_ms: u64) -> (emit: bool)
    ensures
        emit == match *old(last_warning_ms) {
            Some(last) => now_ms - last >= WARN_INTERVAL_MS,
            None => true,
        },
        *final(last_warning_ms) == if emit {
            Some(now_ms)
        } else {
            *old(last_warning_ms)
        },
{
    let emit = match *last_warning_ms {
        Some(last) => now_ms >= last && now_ms - last >= WARN_INTERVAL_MS,
        None => true,
    };
    if emit {
        *last_warning_ms = Some(now_ms);
    }
    emit
}

/// Whether `needle` stands in `hay` at position `i`.
pub open spec fn occurs_at(hay: Seq<char>, needle: Seq<char>, i: int) -> bool {
    0 <= i && i + needle.len() <= hay.len() && hay.subrange(i, i + needle.len()) == needle
}

/// Whether `needle` stands somewhere in `hay`.
pub open spec fn occurs_in(hay: Seq<char>, needle: Seq<char>) -> bool {
    exists|i: int| occurs_at(hay, needle, i)
}

fn matches_at(hay: &Vec<char>, needle: &Vec<char>, at: usize) -> (r: bool)
    requires
        at + needle.len() <= hay.len(),
    ensures
        r == occurs_at(hay@, needle@, at as int),
{
    let mut k: usize = 0;
    while k < needle.len()
        invariant
            k <= needle.len(),
            at + needle.len() <= hay.len(),
            forall|n: int| 0 <= n < k ==> hay@[at + n] == needle@[n],
        decreases needle.len() - k,
    {
        if hay[at + k] != needle[k] {
            assert(hay@.subrange(at as int, at + needle.len())[k as int] != needle@[k as int]);
            return false;
        }
        k += 1;
    }
    assert(hay@.subrange(at as int, at + needle.len()) =~= needle@);
    true
}

/// Whether the text holds `needle`.
pub fn contains_text(hay: &str, needle: &str) -> (r: bool)
    ensures
        r == occurs_in(hay@, needle@),
{
    let h = chars_of(hay);
    let n = chars_of(needle);
    if n.len() > h.len() {
        return false;
    }
    let last: usize = h.len() - n.len();
    let mut i: usize = 0;
    loop
        invariant
            i <= last,
            last == h.len() - n.len(),
            h@ == hay@,
            n@ == needle@,
            forall|k: int| 0 <= k < i ==> !occurs_at(h@, n@, k),
        decreases last - i,
    {
        if matches_at(&h, &n, i) {
            return true;
        }
        if i == last {
            return false;
        }
        i += 1;
    }
}

/// The text in lower case, as Unicode defines it.
pub uninterp spec fn lowercase_of(text: Seq<char>) -> Seq<char>;

/// `str::to_lowercase`: the lower-case form of the text by the Unicode
/// rules, which depends on the text alone.
#[verifier::external_body]
fn unicode_lower(text: &str) -> (r: String)
    ensures
        r@ == lowercase_of(text@),
{
    text.to_lowercase()
}

/// Whether a text in lower case tells of a capture that is still being
/// written: it speaks of something incomplete, of an unexpected end, or of
/// the end of the file.
pub open spec fn tells_of_incomplete_capture(lowered: Seq<char>) -> bool {
    occurs_in(lowered, "incomplete"@) || occurs_in(lowered, "unexpected end"@) || occurs_in(
        lowered,
        "eof"@,
    )
}

/// Whether a message in lower case tells of a capture that is still being
/// written.
pub fn is_transient_text(lowered: &str) -> (r: bool)
    ensures
        r == tells_of_incomplete_capture(lowered@),
{
    contains_text(lowered, "incomplete") || contains_text(lowered, "unexpected end")
        || contains_text(lowered, "eof")
}

/// Whether the message of an error tells of a capture that is still being
/// written, whatever its case.
pub fn is_transient_error(message: &str) -> (r: bool)
    ensures
        r == tells_of_incomplete_capture(lowercase_of(message@)),
{
    let lowered = unicode_lower(message);
    is_transient_text(lowered.as_str())
}

/// Whether the text holds the character.
pub open spec fn has_char(text: Seq<char>, c: char) -> bool {
    exists|i: int| 0 <= i < text.len() && text[i] == c
}

/// Whether an input names several files by a pattern: it holds `*`, `?` or `[`.
pub fn is_glob_pattern(input: &str) -> (r: bool)
    ensures
        r == (has_char(input@, '*') || has_char(input@, '?') || has_char(input@, '[')),
{
    let v = chars_of(input);
    let mut i: usize = 0;
    while i < v.len()
        invariant
            i <= v.len(),
            v@ == input@,
            forall|k: int| 0 <= k < i ==> v@[k] != '*' && v@[k] != '?' && v@[k] != '[',
        decreases v.len() - i,
    {
        let c: char = v[i];
        if c == '*' || c == '?' || c == '[' {
            return true;
        }
        i += 1;
    }
    false
}

/// Whether the extension is that of a capture file: `pcap` or `pcapng`, in
/// any case.
pub open spec fn capture_extension(extension: Seq<char>) -> bool {
    lower(extension) == "pcap"@ || lower(extension) == "pcapng"@
}

/// Whether the extension is that of a capture file.
pub fn is_capture_extension(extension: &str) -> (r: bool)
    ensures
        r == capture_extension(extension@),
{
    let ext = lower_text(extension);
    text_eq(ext.as_str(), "pcap") || text_eq(ext.as_str(), "pcapng")
}

/// What is wrong with an input file, if anything: it must exist, and its
/// extension must be that of a capture file.
pub open spec fn input_fault(path: Seq<char>, exists: bool, extension: Seq<char>) -> Option<
    CliErrorView,
> {
    if !exists {
        Some(
            CliErrorView {
                message: "input file not found: "@ + path,
                hint: Some("use a .pcap or .pcapng file"@),
            },
        )
    } else if !capture_extension(extension) {
        Some(
            CliErrorView {
                message: "unsupported input format '"@ + path + "'"@,
                hint: Some("expected a .pcap or .pcapng file"@),
            },
        )
    } else {
        None
    }
}

/// A check answers as the model does.
pub open spec fn fault_matches(r: Result<(), CliError>, m: Option<CliErrorView>) -> bool {
    match r {
        Ok(_) => m is None,
        Err(e) => m == Some(e@),
    }
}

/// Checks an input file, given its path as text, whether it exists, and its
/// extension.
pub fn validate_input_file(path: &str, exists: bool, extension: &str) -> (r: Result<(), CliError>)
    ensures
        fault_matches(r, input_fault(path@, exists, extension@)),
{
    if !exists {
        let mut message = String::from_str("input file not found: ");
        message.append(path);
        return Err(
            CliError { message, hint: Some(String::from_str("use a .pcap or .pcapng file")) },
        );
    }
    if !is_capture_extension(extension) {
        let mut message = String::from_str("unsupported input format '");
        message.append(path);
        message.append("'");
        return Err(
            CliError { message, hint: Some(String::from_str("expected a .pcap or .pcapng file")) },
        );
    }
    Ok(())
}

/// The first `n` texts joined by `, `.
pub open spec fn listed(paths: Seq<Seq<char>>, n: int) -> Seq<char>
    decreases n,
{
    if n <= 0 {
        Seq::empty()
    } else if n == 1 {
        paths[0]
    } else {
        listed(paths, n - 1) + ", "@ + paths[n - 1]
    }
}

/// What is said where a pattern matches several files: their number, and
/// the first three of them.
pub open spec fn several_matches_message(pattern: Seq<char>, matches: Seq<Seq<char>>) -> Seq<char> {
    let shown = if matches.len() < 3 {
        matches.len() as int
    } else {
        3
    };
    "multiple files match pattern '"@ + pattern + "' ("@ + decimal(matches.len()) + " matches)"@
        + "; matches: "@ + listed(matches, shown) + if matches.len() > 3 {
        ", ..."@
    } else {
        ""@
    }
}

/// What is wrong with the files that a pattern matched, if anything: there
/// must be exactly one.
pub open spec fn match_fault(pattern: Seq<char>, matches: Seq<Seq<char>>) -> Option<CliErrorView> {
    if matches.len() == 0 {
        Some(
            CliErrorView {
                message: "no files match pattern '"@ + pattern + "'"@,
                hint: Some("check the path or quote the pattern; expected .pcap or .pcapng"@),
            },
        )
    } else if matches.len() > 1 {
        Some(
            CliErrorView {
                message: several_matches_message(pattern, matches),
                hint: Some("pass a single capture file, or run once per file"@),
            },
        )
    } else {
        None
    }
}

/// Checks that a pattern matched exactly one file.
pub fn check_single_match(pattern: &str, matches: &Vec<String>) -> (r: Result<(), CliError>)
    ensures
        fault_matches(r, match_fault(pattern@, texts_of(matches@))),
{
    if matches.len() == 0 {
        let mut message = String::from_str("no files match pattern '");
        message.append(pattern);
        message.append("'");
        return Err(
            CliError {
                message,
                hint: Some(
                    String::from_str(
                        "check the path or quote the pattern; expected .pcap or .pcapng",
                    ),
                ),
            },
        );
    }
    if matches.len() > 1 {
        let mut message = String::from_str("multiple files match pattern '");
        message.append(pattern);
        message.append("' (");
        push_decimal(&mut message, matches.len() as u64);
        message.append(" matches)");
        message.append("; matches: ");
        let shown: usize = if matches.len() < 3 {
            matches.len()
        } else {
            3
        };
        let ghost head = message@;
        let ghost paths = texts_of(matches@);
        let mut i: usize = 0;
        while i < shown
            invariant
                i <= shown <= matches.len(),
                paths == texts_of(matches@),
                message@ == head + listed(paths, i as int),
            decreases shown - i,
        {
            let ghost before = message@;
            if i > 0 {
                message.append(", ");
            }
            message.append(matches[i].as_str());
            proof {
                assert(paths[i as int] == matches@[i as int]@);
                if i == 0 {
                    assert(message@ =~= head + paths[0]);
                } else {
                    assert(message@ =~= head + (listed(paths, i as int) + ", "@ + paths[i as int]));
                }
            }
            i += 1;
        }
        if matches.len() > 3 {
            message.append(", ...");
        }
        proof {
            reveal_strlit("");
            assert(message@ =~= several_matches_message(pattern@, paths));
        }
        return Err(
            CliError {
                message,
                hint: Some(String::from_str("pass a single capture file, or run once per file")),
            },
        );
    }
    Ok(())
}

/// Checks that not both output formats were asked for.
pub fn check_output_format(pretty: bool, compact: bool) -> (r: Result<(), CliError>)
    ensures
        r is Err == (pretty && compact),
        r is Err ==> r->Err_0@ == (CliErrorView {
            message: "cannot use --pretty and --compact together"@,
            hint: Some("choose one output format"@),
        }),
{
    if pretty && compact {
        return Err(
            CliError {
                message: String::from_str("cannot use --pretty and --compact together"),
                hint: Some(String::from_str("choose one output format")),
            },
        );
    }
    Ok(())
}

/// What is known of a capture without analysing it.
#[derive(Debug, Clone)]
pub struct PcapInfo {
    pub path: String,
    pub size_bytes: u64,
    pub capture_type: String,
    pub packets: u64,
    pub first_ts: Option<String>,
    pub last_ts: Option<String>,
    /// From the first to the last packet, in microseconds.
    pub duration_us: Option<u64>,
    /// The link type of the first packet.
    pub linktype: Option<String>,
}

/// The view of `PcapInfo`: its texts as characters, its lists as sequences.
pub struct PcapInfoView {
    pub path: Seq<char>,
    pub size_bytes: u64,
    pub capture_type: Seq<char>,
    pub packets: u64,
    pub first_ts: Option<Seq<char>>,
    pub last_ts: Option<Seq<char>>,
    pub duration_us: Option<u64>,
    pub linktype: Option<Seq<char>>,
}

impl View for PcapInfo {
    type V = PcapInfoView;

    open spec fn view(&self) -> PcapInfoView {
        PcapInfoView {
            path: self.path@,
            size_bytes: self.size_bytes,
            capture_type: self.capture_type@,
            packets: self.packets,
            first_ts: optional_text(self.first_ts),
            last_ts: optional_text(self.last_ts),
            duration_us: self.duration_us,
            linktype: optional_text(self.linktype),
        }
    }
}

/// What the packets of a capture have told so far.
pub struct PcapInfoCounter {
    pub packets: u64,
    pub first_ts: Option<u64>,
    pub last_ts: Option<u64>,
    pub linktype: Option<String>,
}

/// The view of `PcapInfoCounter`: its texts as characters, its lists as sequences.
pub struct PcapInfoCounterView {
    pub packets: u64,
    pub first_ts: Option<u64>,
    pub last_ts: Option<u64>,
    pub linktype: Option<Seq<char>>,
}

impl View for PcapInfoCounter {
    type V = PcapInfoCounterView;

    open spec fn view(&self) -> PcapInfoCounterView {
        PcapInfoCounterView {
            packets: self.packets,
            first_ts: self.first_ts,
            last_ts: self.last_ts,
            linktype: optional_text(self.linktype),
        }
    }
}

/// The count after one more packet: the link type is that of the first.
pub open spec fn counted(c: PcapInfoCounterView, ts: Option<u64>, linktype: Seq<char>) -> PcapInfoCounterView {
    PcapInfoCounterView {
        packets: crate::analysis::window::sat_add(c.packets, 1),
        first_ts: bounds_step(c.first_ts, c.last_ts, ts).0,
        last_ts: bounds_step(c.first_ts, c.last_ts, ts).1,
        linktype: if c.linktype is None {
            Some(linktype)
        } else {
            c.linktype
        },
    }
}

/// What is said of a capture whose packets were counted.
pub open spec fn info_of(
    c: PcapInfoCounterView,
    path: Seq<char>,
    size_bytes: u64,
    capture_type: Seq<char>,
) -> PcapInfoView {
    PcapInfoView {
        path,
        size_bytes,
        capture_type,
        packets: c.packets,
        first_ts: rfc3339_of(c.first_ts),
        last_ts: rfc3339_of(c.last_ts),
        duration_us: match (c.first_ts, c.last_ts) {
            (Some(start), Some(end)) => if end >= start {
                Some((end - start) as u64)
            } else {
                None
            },
            _ => None,
        },
        linktype: c.linktype,
    }
}

impl PcapInfoCounter {
    /// A count of no packets.
    pub fn new() -> (r: Self)
        ensures
            r@ == (PcapInfoCounterView { packets: 0, first_ts: None, last_ts: None, linktype: None }),
    {
        PcapInfoCounter { packets: 0, first_ts: None, last_ts: None, linktype: None }
    }

    /// Counts one packet, captured at `ts` on a link of the type named.
    pub fn take_packet(&mut self, ts: Option<u64>, linktype: &str)
        ensures
            final(self)@ == counted(old(self)@, ts, linktype@),
    {
        self.packets = self.packets.saturating_add(1);
        if self.linktype.is_none() {
            self.linktype = Some(String::from_str(linktype));
        }
        update_ts_bounds(&mut self.first_ts, &mut self.last_ts, ts);
    }

    /// What is said of the capture.
    pub fn finish(self, path: &str, size_bytes: u64, capture_type: &str) -> (r: PcapInfo)
        ensures
            r@ == info_of(self@, path@, size_bytes, capture_type@),
    {
        let duration_us = match (self.first_ts, self.last_ts) {
            (Some(start), Some(end)) => if end >= start {
                Some(end - start)
            } else {
                None
            },
            _ => None,
        };
        PcapInfo {
            path: String::from_str(path),
            size_bytes,
            capture_type: String::from_str(capture_type),
            packets: self.packets,
            first_ts: ts_to_rfc3339(self.first_ts),
            last_ts: ts_to_rfc3339(self.last_ts),
            duration_us,
            linktype: self.linktype,
        }
    }
}

} // verus!
