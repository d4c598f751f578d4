use liveshark::analysis::compliance::{finalize_compliance, normalize_example, record_violation};
use liveshark::analysis::table::Table;
use liveshark::report::severity_rank;
use liveshark::ComplianceSummary;

#[test]
fn compliance_aggregates_by_protocol_and_id() {
    let mut compliance: Table<ComplianceSummary> = Table::new();

    record_violation(
        &mut compliance,
        "artnet",
        "LS-ARTNET-UNIVERSE-ID",
        "error",
        "Invalid Art-Net universe id; packet ignored",
        "value=32768".to_string(),
    );
    record_violation(
        &mut compliance,
        "artnet",
        "LS-ARTNET-UNIVERSE-ID",
        "error",
        "Invalid Art-Net universe id; packet ignored",
        "value=40000".to_string(),
    );
    record_violation(
        &mut compliance,
        "sacn",
        "LS-SACN-START-CODE",
        "error",
        "Invalid sACN start code; packet ignored",
        "value=1".to_string(),
    );

    let artnet = compliance.get("artnet").expect("artnet compliance");
    assert_eq!(artnet.violations.len(), 1);
    let violation = &artnet.violations[0];
    assert_eq!(violation.count, 2);
    assert_eq!(violation.examples.len(), 2);

    let sacn = compliance.get("sacn").expect("sacn compliance");
    assert_eq!(sacn.violations.len(), 1);
    assert_eq!(sacn.violations[0].count, 1);
}

#[test]
fn compliance_examples_are_deduplicated_and_capped() {
    let mut compliance: Table<ComplianceSummary> = Table::new();

    for example in ["slice-c", "slice-a", "slice-b", "slice-a", "slice-d"] {
        record_violation(
            &mut compliance,
            "udp",
            "LS-UDP-SLICE",
            "error",
            "Invalid UDP slice; packet ignored",
            example.to_string(),
        );
    }

    let entries = finalize_compliance(compliance);
    let udp = &entries[0];
    let violation = &udp.violations[0];
    assert_eq!(violation.count, 5);
    assert_eq!(violation.examples.len(), 3);
    assert_eq!(
        violation.examples,
        vec![
            "source unknown @ unknown; slice-a".to_string(),
            "source unknown @ unknown; slice-b".to_string(),
            "source unknown @ unknown; slice-c".to_string()
        ]
    );
}

#[test]
fn compliance_entries_are_sorted_by_protocol_and_id() {
    let mut compliance: Table<ComplianceSummary> = Table::new();

    record_violation(
        &mut compliance,
        "sacn",
        "LS-SACN-START-CODE",
        "error",
        "Invalid sACN start code; packet ignored",
        "value=1".to_string(),
    );
    record_violation(
        &mut compliance,
        "artnet",
        "LS-ARTNET-UNIVERSE-ID",
        "error",
        "Invalid Art-Net universe id; packet ignored",
        "value=32768".to_string(),
    );
    record_violation(
        &mut compliance,
        "artnet",
        "LS-ARTNET-LENGTH",
        "error",
        "Invalid ArtDMX length; packet ignored",
        "length=0".to_string(),
    );

    let entries = finalize_compliance(compliance);
    assert_eq!(entries.len(), 2);
    assert_eq!(entries[0].protocol, "artnet");
    assert_eq!(entries[1].protocol, "sacn");
    assert_eq!(entries[0].violations.len(), 2);
    assert_eq!(entries[0].violations[0].id, "LS-ARTNET-LENGTH");
    assert_eq!(entries[0].violations[1].id, "LS-ARTNET-UNIVERSE-ID");
}

#[test]
fn examples_are_normalized() {
    assert_eq!(normalize_example(""), "source unknown @ unknown");
    assert_eq!(normalize_example("x=1"), "source unknown @ unknown; x=1");
    assert_eq!(
        normalize_example("source 10.0.0.1:1 @ unknown; x=1"),
        "source 10.0.0.1:1 @ unknown; x=1"
    );
    assert_eq!(normalize_example("source"), "source unknown @ unknown; source");
}

#[test]
fn severities_rank_errors_first() {
    assert_eq!(severity_rank("error"), 0);
    assert_eq!(severity_rank("warning"), 1);
    assert_eq!(severity_rank("note"), 2);
    assert_eq!(severity_rank("Error"), 2);
}

#[test]
fn texts_are_trimmed_and_protocols_lower_cased() {
    let mut compliance: Table<ComplianceSummary> = Table::new();
    record_violation(&mut compliance, " ArtNet ", " ID-1 ", " warning ", " m ", "  ".to_string());
    record_violation(&mut compliance, "artnet", "ID-1", "error", "other", " e ".to_string());
    assert_eq!(compliance.len(), 1);
    let entry = compliance.get("artnet").unwrap();
    assert_eq!(entry.protocol, "artnet");
    assert_eq!(entry.compliance_percentage, 100);
    assert_eq!(entry.violations.len(), 1);
    let violation = &entry.violations[0];
    assert_eq!(violation.id, "ID-1");
    assert_eq!(violation.severity, "warning");
    assert_eq!(violation.message, "m");
    assert_eq!(violation.count, 2);
    assert_eq!(
        violation.examples,
        vec!["source unknown @ unknown", "source unknown @ unknown; e"]
    );
}

#[test]
fn violations_are_listed_by_severity_then_id() {
    let mut compliance: Table<ComplianceSummary> = Table::new();
    for (id, severity) in [("B", "warning"), ("Z", "error"), ("A", "info"), ("A2", "error"), ("A1", "warning")] {
        record_violation(&mut compliance, "udp", id, severity, "m", "e".to_string());
    }
    assert!(finalize_compliance(Table::new()).is_empty());
    let entries = finalize_compliance(compliance);
    let ids: Vec<&str> = entries[0].violations.iter().map(|v| v.id.as_str()).collect();
    assert_eq!(ids, vec!["A2", "Z", "A1", "B", "A"]);
}
