use liveshark::cli::{
    check_output_format, check_single_match, contains_text, follow_should_analyze,
    has_violations, is_capture_extension, is_glob_pattern, is_transient_error,
    is_transient_text, should_warn, validate_input_file, violations_summary, CliError,
    FollowSeen, PcapInfoCounter,
};
use liveshark::{make_stub_report, ComplianceSummary, Violation};

fn violation(id: &str, count: u64) -> Violation {
    Violation {
        id: id.to_string(),
        severity: "error".to_string(),
        message: "m".to_string(),
        count,
        examples: Vec::new(),
    }
}

#[test]
fn reports_tell_whether_they_hold_violations() {
    let mut report = make_stub_report("c", 0);
    assert!(!has_violations(&report));
    assert!(violations_summary(&report).is_empty());
    report.compliance.push(ComplianceSummary {
        protocol: "udp".to_string(),
        compliance_percentage: 100,
        violations: Vec::new(),
    });
    assert!(!has_violations(&report));
    report.compliance.push(ComplianceSummary {
        protocol: "sacn".to_string(),
        compliance_percentage: 100,
        violations: vec![violation("B", 2), violation("A", 1)],
    });
    report.compliance.push(ComplianceSummary {
        protocol: "artnet".to_string(),
        compliance_percentage: 100,
        violations: vec![violation("Z", 9)],
    });
    assert!(has_violations(&report));
    let lines: Vec<(String, String, u64)> = violations_summary(&report)
        .into_iter()
        .map(|l| (l.protocol, l.id, l.count))
        .collect();
    assert_eq!(
        lines,
        vec![
            ("artnet".to_string(), "Z".to_string(), 9),
            ("sacn".to_string(), "A".to_string(), 1),
            ("sacn".to_string(), "B".to_string(), 2),
        ]
    );
}

#[test]
fn followed_captures_are_analysed_when_they_change() {
    let seen = |size_bytes: u64, modified: Option<u64>| FollowSeen { size_bytes, modified };
    assert_eq!(follow_should_analyze(seen(10, None), None), (true, false));
    assert_eq!(follow_should_analyze(seen(9, Some(5)), Some(seen(10, Some(1)))), (true, true));
    assert_eq!(follow_should_analyze(seen(11, None), Some(seen(10, None))), (true, false));
    assert_eq!(follow_should_analyze(seen(10, Some(2)), Some(seen(10, Some(1)))), (true, false));
    assert_eq!(follow_should_analyze(seen(10, Some(1)), Some(seen(10, Some(1)))), (false, false));
    assert_eq!(follow_should_analyze(seen(10, None), Some(seen(10, Some(1)))), (false, false));
    assert_eq!(follow_should_analyze(seen(10, Some(1)), Some(seen(10, None))), (false, false));
}

#[test]
fn warnings_are_five_seconds_apart() {
    let mut last = None;
    assert!(should_warn(&mut last, 100));
    assert_eq!(last, Some(100));
    assert!(!should_warn(&mut last, 5099));
    assert_eq!(last, Some(100));
    assert!(should_warn(&mut last, 5100));
    assert_eq!(last, Some(5100));
    assert!(!should_warn(&mut last, 0));
}

#[test]
fn transient_errors_are_told_by_their_words() {
    assert!(is_transient_error("PCAP parse error: Incomplete read: 4"));
    assert!(is_transient_error("Unexpected END of file"));
    assert!(is_transient_error("hit EOF"));
    assert!(!is_transient_error("permission denied"));
    assert!(!is_transient_error(""));
    assert!(is_transient_text("eof"));
    assert!(!is_transient_text("EOF"));
    assert!(contains_text("abcabd", "abd"));
    assert!(contains_text("abc", ""));
    assert!(contains_text("", ""));
    assert!(!contains_text("ab", "abc"));
    assert!(!contains_text("aab", "aba"));
}

#[test]
fn inputs_are_checked() {
    assert!(is_glob_pattern("*.pcap"));
    assert!(is_glob_pattern("cap?.pcap"));
    assert!(is_glob_pattern("cap[12].pcap"));
    assert!(!is_glob_pattern("capture.pcap"));
    assert!(is_capture_extension("pcap"));
    assert!(is_capture_extension("PcapNG"));
    assert!(!is_capture_extension("txt"));
    assert!(!is_capture_extension(""));
    assert!(validate_input_file("a.pcap", true, "pcap").is_ok());
    let err: CliError = validate_input_file("missing.pcapng", false, "pcapng").unwrap_err();
    assert_eq!(err.message, "input file not found: missing.pcapng");
    assert_eq!(err.hint.as_deref(), Some("use a .pcap or .pcapng file"));
    let err = validate_input_file("capture.txt", true, "txt").unwrap_err();
    assert_eq!(err.message, "unsupported input format 'capture.txt'");
    assert_eq!(err.hint.as_deref(), Some("expected a .pcap or .pcapng file"));
    assert!(check_output_format(true, false).is_ok());
    assert!(check_output_format(false, true).is_ok());
    let err = check_output_format(true, true).unwrap_err();
    assert_eq!(err.message, "cannot use --pretty and --compact together");
    let made = CliError::new("m", Some("h".to_string()));
    assert_eq!((made.message.as_str(), made.hint.as_deref()), ("m", Some("h")));
}

#[test]
fn a_pattern_must_match_one_file() {
    let names = |n: usize| -> Vec<String> { (0..n).map(|i| format!("f{}.pcap", i)).collect() };
    assert!(check_single_match("*.pcap", &names(1)).is_ok());
    let err = check_single_match("*.pcap", &names(0)).unwrap_err();
    assert_eq!(err.message, "no files match pattern '*.pcap'");
    assert_eq!(
        err.hint.as_deref(),
        Some("check the path or quote the pattern; expected .pcap or .pcapng")
    );
    let err = check_single_match("*.pcap", &names(2)).unwrap_err();
    assert_eq!(
        err.message,
        "multiple files match pattern '*.pcap' (2 matches); matches: f0.pcap, f1.pcap"
    );
    assert_eq!(err.hint.as_deref(), Some("pass a single capture file, or run once per file"));
    let err = check_single_match("*.pcap", &names(3)).unwrap_err();
    assert_eq!(
        err.message,
        "multiple files match pattern '*.pcap' (3 matches); matches: f0.pcap, f1.pcap, f2.pcap"
    );
    let err = check_single_match("*.pcap", &names(12)).unwrap_err();
    assert_eq!(
        err.message,
        "multiple files match pattern '*.pcap' (12 matches); matches: f0.pcap, f1.pcap, f2.pcap, ..."
    );
}

#[test]
fn capture_metadata_is_counted() {
    let mut counter = PcapInfoCounter::new();
    counter.take_packet(Some(2_000_000), "ETHERNET");
    counter.take_packet(None, "RAW");
    counter.take_packet(Some(500_000), "RAW");
    let info = counter.finish("c.pcapng", 77, "pcapng");
    assert_eq!(info.path, "c.pcapng");
    assert_eq!(info.size_bytes, 77);
    assert_eq!(info.capture_type, "pcapng");
    assert_eq!(info.packets, 3);
    assert_eq!(info.first_ts.as_deref(), Some("1970-01-01T00:00:00.5Z"));
    assert_eq!(info.last_ts.as_deref(), Some("1970-01-01T00:00:02Z"));
    assert_eq!(info.duration_us, Some(1_500_000));
    assert_eq!(info.linktype.as_deref(), Some("ETHERNET"));
    let empty = PcapInfoCounter::new().finish("e", 0, "pcap");
    assert_eq!((empty.packets, empty.duration_us, empty.linktype), (0, None, None));
}
