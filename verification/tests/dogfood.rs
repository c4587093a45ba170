use eltanin::dogfood::adapter::{
    project, project_record, resolve_profile, scan_for_forbidden_hardware_terms,
    summary_unsupported_notes,
};
use eltanin::dogfood::audit::{
    AuditEventId, AuditRecord, LogScan, RecordedEnforcementMode, RecordedOutcome, UnreadableLine,
    WallClockTime,
};
use eltanin::dogfood::canon::{canonicalize, hash_event};
use eltanin::dogfood::event::{
    derive_event_id, format_timestamp_or_sentinel, ActualAction, Coverage, DecisionMode,
    Eligibility, GapReason, PayloadClassification, Profile,
};
use eltanin::dogfood::rfc3339::format_rfc3339_millis;
use eltanin::lease::IssuerInstanceId;
use eltanin::session::SessionId;

fn wct(unix_secs: i64, nanos: u32) -> WallClockTime {
    WallClockTime { unix_secs, nanos }
}

fn zero_time() -> WallClockTime {
    wct(1_790_244_903, 0)
}

fn event_id(instance: &str, sequence: u64) -> AuditEventId {
    AuditEventId {
        instance: IssuerInstanceId::new(instance),
        sequence,
    }
}

fn session_id(instance: &str, sequence: u64) -> SessionId {
    SessionId {
        issuer: IssuerInstanceId::new(instance),
        sequence,
    }
}

fn base_record(
    instance: &str,
    sequence: u64,
    mode: RecordedEnforcementMode,
    outcome: RecordedOutcome,
    session: Option<SessionId>,
) -> AuditRecord {
    AuditRecord {
        event_id: event_id(instance, sequence),
        recorded_at: zero_time(),
        mode,
        session,
        outcome,
    }
}

fn empty_scan() -> LogScan {
    LogScan::default()
}

// ---- RFC 3339 timestamps ----

#[test]
fn known_instants_format_correctly() {
    assert_eq!(
        format_rfc3339_millis(wct(0, 0)).unwrap(),
        "1970-01-01T00:00:00.000Z"
    );
    assert_eq!(
        format_rfc3339_millis(wct(1_790_244_903, 1_000_000)).unwrap(),
        "2026-09-24T10:15:03.001Z"
    );
    assert_eq!(
        format_rfc3339_millis(wct(1_709_208_000, 0)).unwrap(),
        "2024-02-29T12:00:00.000Z"
    );
    assert_eq!(
        format_rfc3339_millis(wct(946_684_800, 0)).unwrap(),
        "2000-01-01T00:00:00.000Z"
    );
}

#[test]
fn pre_epoch_is_refused_not_guessed() {
    assert!(format_rfc3339_millis(wct(-1, 0)).is_err());
}

#[test]
fn pre_epoch_timestamp_becomes_the_sentinel() {
    assert_eq!(
        format_timestamp_or_sentinel(wct(-5, 0)),
        "1970-01-01T00:00:00.000Z"
    );
    assert_eq!(
        format_timestamp_or_sentinel(wct(86_399, 999_999_999)),
        "1970-01-01T23:59:59.999Z"
    );
}

// ---- mode mapping ----

#[test]
fn shadow_would_grant_projects_to_observe_no_op_would_allow() {
    let record = base_record(
        "instance-a",
        1,
        RecordedEnforcementMode::Shadow,
        RecordedOutcome::WouldGrant,
        None,
    );
    let event = project_record(&record, Profile::Personal, "0.1.0", zero_time()).unwrap();
    assert_eq!(event.decision_mode, DecisionMode::Observe);
    assert_eq!(event.actual_action, ActualAction::NoOp);
    assert_eq!(event.would_action, Some(ActualAction::Allow));
    assert_eq!(event.eligibility, Eligibility::NonReplayableOperation);
}

#[test]
fn shadow_policy_denied_projects_to_observe_no_op_would_deny() {
    let record = base_record(
        "instance-a",
        2,
        RecordedEnforcementMode::Shadow,
        RecordedOutcome::PolicyDenied,
        None,
    );
    let event = project_record(&record, Profile::Personal, "0.1.0", zero_time()).unwrap();
    assert_eq!(event.actual_action, ActualAction::NoOp);
    assert_eq!(event.would_action, Some(ActualAction::Deny));
}

#[test]
fn enforce_with_no_session_is_refused_not_fabricated() {
    let record = base_record(
        "instance-a",
        3,
        RecordedEnforcementMode::Enforce,
        RecordedOutcome::Granted,
        None,
    );
    let result = project_record(&record, Profile::Personal, "0.1.0", zero_time());
    assert!(
        result.is_err(),
        "expected refusal for enforce+session=None, found {:?}",
        result
    );
}

#[test]
fn enforce_with_session_projects_a_real_scope_id() {
    let record = base_record(
        "instance-a",
        4,
        RecordedEnforcementMode::Enforce,
        RecordedOutcome::Granted,
        Some(session_id("instance-a", 9)),
    );
    let event = project_record(&record, Profile::Personal, "0.1.0", zero_time()).unwrap();
    assert_eq!(event.decision_mode, DecisionMode::Enforce);
    assert_eq!(event.scope_id.as_deref(), Some("instance-a#9"));
    assert_eq!(event.actual_action, ActualAction::Allow);
    assert_eq!(event.would_action, None);
}

#[test]
fn enforce_refusal_names_the_record() {
    let record = base_record(
        "instance-a",
        3,
        RecordedEnforcementMode::Enforce,
        RecordedOutcome::Granted,
        None,
    );
    let reason = project_record(&record, Profile::Personal, "0.1.0", zero_time()).unwrap_err();
    assert_eq!(
        reason,
        "record instance-a#3 is decision_mode=enforce with session=None — scope_id is required \
         under enforce (ADR-0012 §3/DFC-SCHEMA-12); refusing rather than fabricating a scope"
    );
}

// ---- gap and retention ----

#[test]
fn seeded_gaps_are_counted_exactly() {
    let mut scan = empty_scan();
    let n = 7;
    for i in 0..n {
        scan.gaps.push(i);
    }
    let projection = project(&scan, Profile::Personal, "0.1.0", zero_time());
    assert_eq!(projection.summary.dropped_count, n);
    assert_eq!(projection.summary.coverage, Coverage::Gap);
    assert_eq!(
        projection.summary.gap_reason,
        Some(GapReason::SourceUnavailable)
    );
}

#[test]
fn unreadable_recovered_line_reports_gap_reason_unknown_and_takes_priority() {
    let mut scan = empty_scan();
    scan.gaps.push(0);
    scan.unreadable.push(UnreadableLine {
        event_id: Some(event_id("instance-x", 1)),
    });
    let projection = project(&scan, Profile::Personal, "0.1.0", zero_time());
    assert_eq!(projection.summary.dropped_count, 2);
    assert_eq!(projection.summary.gap_reason, Some(GapReason::Unknown));
}

#[test]
fn retention_floor_alone_reports_buffer_overflow_with_zero_dropped_and_a_disclosure() {
    let mut scan = empty_scan();
    scan.retention_floor.push(41);
    scan.records.push(base_record(
        "instance-x",
        42,
        RecordedEnforcementMode::Shadow,
        RecordedOutcome::WouldGrant,
        None,
    ));
    let projection = project(&scan, Profile::Personal, "0.1.0", zero_time());
    assert_eq!(projection.summary.dropped_count, 0);
    assert_eq!(projection.summary.coverage, Coverage::Gap);
    assert_eq!(
        projection.summary.gap_reason,
        Some(GapReason::BufferOverflow)
    );
    let notes = summary_unsupported_notes(&scan);
    assert!(notes.contains(&"exact_dropped_count_below_retention_floor"));
}

#[test]
fn clean_scan_reports_full_coverage() {
    let mut scan = empty_scan();
    scan.records.push(base_record(
        "instance-x",
        0,
        RecordedEnforcementMode::Shadow,
        RecordedOutcome::WouldGrant,
        None,
    ));
    let projection = project(&scan, Profile::Personal, "0.1.0", zero_time());
    assert_eq!(projection.events.len(), 1);
    assert!(projection.malformed.is_empty());
    assert_eq!(projection.summary.dropped_count, 0);
    assert_eq!(projection.summary.coverage, Coverage::Full);
    assert_eq!(projection.summary.gap_reason, None);
}

#[test]
fn malformed_records_are_set_aside_not_projected() {
    let mut scan = empty_scan();
    scan.records.push(base_record(
        "instance-x",
        0,
        RecordedEnforcementMode::Enforce,
        RecordedOutcome::Granted,
        None,
    ));
    scan.records.push(base_record(
        "instance-x",
        1,
        RecordedEnforcementMode::Shadow,
        RecordedOutcome::WouldGrant,
        None,
    ));
    let projection = project(&scan, Profile::Personal, "0.1.0", zero_time());
    assert_eq!(projection.events.len(), 1);
    assert_eq!(projection.malformed.len(), 1);
    assert_eq!(projection.malformed[0].event_id, event_id("instance-x", 0));
}

// ---- personal profile safety ----

#[test]
fn no_shadow_sourced_record_ever_projects_actual_action_deny() {
    let outcomes: Vec<RecordedOutcome> = vec![
        RecordedOutcome::WouldGrant,
        RecordedOutcome::PolicyDenied,
        RecordedOutcome::PeerNotAuthorizable,
        RecordedOutcome::StatusReported,
        RecordedOutcome::SessionNotFound,
        RecordedOutcome::ApprovalRequired,
        RecordedOutcome::ApprovalDenied,
    ];
    for (n, outcome) in outcomes.into_iter().enumerate() {
        let record = base_record("i", n as u64, RecordedEnforcementMode::Shadow, outcome, None);
        let event = project_record(&record, Profile::Personal, "0.1.0", zero_time()).unwrap();
        assert_eq!(
            event.actual_action,
            ActualAction::NoOp,
            "a Shadow-sourced record must never carry a real actual_action, found {:?} for record {}",
            event.actual_action,
            n
        );
        assert_ne!(
            event.actual_action,
            ActualAction::Deny,
            "personal/observe profile must never report a real deny for record {n}"
        );
    }
}

#[test]
fn observe_and_actual_action_deny_never_co_occur() {
    let record = base_record(
        "i",
        0,
        RecordedEnforcementMode::Shadow,
        RecordedOutcome::PolicyDenied,
        None,
    );
    let event = project_record(&record, Profile::Personal, "0.1.0", zero_time()).unwrap();
    assert!(
        !(event.decision_mode == DecisionMode::Observe
            && event.actual_action == ActualAction::Deny)
    );
}

// ---- redaction ----

#[test]
fn payload_classification_is_always_metadata_only() {
    let record = base_record(
        "i",
        0,
        RecordedEnforcementMode::Shadow,
        RecordedOutcome::WouldGrant,
        None,
    );
    let event = project_record(&record, Profile::Personal, "0.1.0", zero_time()).unwrap();
    assert_eq!(
        event.payload_classification,
        PayloadClassification::MetadataOnly
    );
    let json = canonicalize(&event).unwrap();
    assert!(json.contains("\"metadata_only\""));
}

#[test]
fn projected_event_has_no_field_for_raw_workload_content() {
    let record = base_record(
        "i",
        1,
        RecordedEnforcementMode::Shadow,
        RecordedOutcome::WouldGrant,
        None,
    );
    let event = project_record(&record, Profile::Personal, "0.1.0", zero_time()).unwrap();
    let json = canonicalize(&event).unwrap();
    for forbidden_key in ["executable_path", "argv", "cmdline", "environ", "prompt"] {
        assert!(
            !json.contains(&format!("\"{}\":", forbidden_key)),
            "projected event must never carry a {forbidden_key:?} field"
        );
    }
}

// ---- no GPU claim ----

#[test]
fn no_forbidden_hardware_term_appears_in_any_serialized_event() {
    let mut scan = empty_scan();
    scan.records.push(base_record(
        "i",
        0,
        RecordedEnforcementMode::Shadow,
        RecordedOutcome::WouldGrant,
        None,
    ));
    scan.records.push(base_record(
        "i",
        1,
        RecordedEnforcementMode::Enforce,
        RecordedOutcome::Granted,
        Some(session_id("i", 5)),
    ));
    let projection = project(&scan, Profile::Personal, "0.1.0", zero_time());
    let mut all_serialized = String::new();
    for event in &projection.events {
        all_serialized.push_str(&canonicalize(event).unwrap());
    }
    all_serialized.push_str(&canonicalize(&projection.summary).unwrap());
    let hits = scan_for_forbidden_hardware_terms(&all_serialized);
    assert!(
        hits.is_empty(),
        "found forbidden hardware term(s) in a serialized event body: {hits:?}"
    );
}

#[test]
fn device_level_gpu_enforcement_is_disclosed_in_the_unsupported_notes() {
    let scan = empty_scan();
    let notes = summary_unsupported_notes(&scan);
    assert!(notes.contains(&"device_level_gpu_enforcement"));
}

#[test]
fn hardware_term_scan_is_case_insensitive() {
    let hits = scan_for_forbidden_hardware_terms("{\"x\":\"An NVIDIA Gpu\"}");
    assert!(!hits.is_empty());
    assert!(scan_for_forbidden_hardware_terms("{\"x\":\"plain\"}").is_empty());
}

// ---- canonical form stability ----

#[test]
fn reprojecting_the_same_record_is_fully_deterministic() {
    let record = base_record(
        "instance-a",
        1,
        RecordedEnforcementMode::Shadow,
        RecordedOutcome::WouldGrant,
        None,
    );
    let first = project_record(&record, Profile::Personal, "0.1.0", zero_time()).unwrap();
    let second = project_record(&record, Profile::Personal, "0.1.0", zero_time()).unwrap();
    assert_eq!(first.event_id, second.event_id);
    assert_eq!(
        first.integrity.content_hash.value,
        second.integrity.content_hash.value
    );
    assert_eq!(first, second);
}

#[test]
fn different_records_never_collide_on_event_id() {
    let a = base_record(
        "instance-a",
        1,
        RecordedEnforcementMode::Shadow,
        RecordedOutcome::WouldGrant,
        None,
    );
    let b = base_record(
        "instance-a",
        2,
        RecordedEnforcementMode::Shadow,
        RecordedOutcome::WouldGrant,
        None,
    );
    let ea = project_record(&a, Profile::Personal, "0.1.0", zero_time()).unwrap();
    let eb = project_record(&b, Profile::Personal, "0.1.0", zero_time()).unwrap();
    assert_ne!(ea.event_id, eb.event_id);
}

#[test]
fn content_hash_is_pinned_against_a_locally_computed_stability_anchor() {
    let record = base_record(
        "pinned-instance",
        7,
        RecordedEnforcementMode::Shadow,
        RecordedOutcome::WouldGrant,
        None,
    );
    let event = project_record(&record, Profile::Personal, "9.9.9", zero_time()).unwrap();
    let recomputed = hash_event(&event).unwrap();
    assert_eq!(
        event.integrity.content_hash.value,
        recomputed.content_hash.value
    );
}

#[test]
fn canonical_form_leaves_integrity_out_and_keeps_integers_integral() {
    let record = base_record(
        "i",
        0,
        RecordedEnforcementMode::Shadow,
        RecordedOutcome::WouldGrant,
        None,
    );
    let event = project_record(&record, Profile::Personal, "0.1.0", zero_time()).unwrap();
    let text = canonicalize(&event).unwrap();
    assert!(!text.contains("\"integrity\""));
    assert!(text.contains("\"dropped_count\":0"));
    assert!(!text.contains("0.0"));
    assert!(text.starts_with('{') && text.ends_with('}'));
}

#[test]
fn event_id_is_v7_shaped_and_time_ordered() {
    let id = derive_event_id(&event_id("instance-a", 1), zero_time());
    assert_eq!(id.len(), 36);
    let parts: Vec<&str> = id.split('-').collect();
    assert_eq!(parts.len(), 5);
    assert!(parts[2].starts_with('7'));
    assert!(matches!(parts[3].chars().next(), Some('8' | '9' | 'a' | 'b')));
    // 1_790_244_903_000 ms = 0x1a0_d2e9_5858
    assert_eq!(format!("{}{}", parts[0], parts[1]), "01a0d2e95858");
}

#[test]
fn profile_resolution_defaults_to_personal() {
    assert_eq!(resolve_profile(None), Profile::Personal);
    assert_eq!(resolve_profile(Some("corporate")), Profile::Corporate);
    assert_eq!(resolve_profile(Some("Corporate")), Profile::Personal);
}

#[test]
fn canonical_form_and_hash_of_a_known_record() {
    let record = base_record(
        "instance-a",
        1,
        RecordedEnforcementMode::Shadow,
        RecordedOutcome::WouldGrant,
        None,
    );
    let event = project_record(&record, Profile::Personal, "0.1.0", zero_time()).unwrap();
    assert_eq!(event.event_id, "01a0d2e9-5858-7e99-b1ca-9611d45a549d");
    assert_eq!(
        canonicalize(&event).unwrap(),
        concat_fields(&[
            "{\"actual_action\":\"no_op\",\"adapter_version\":\"0.1.0\",\"coverage\":\"full\",",
            "\"decision_mode\":\"observe\",\"destination\":\"local_only\",\"dropped_count\":0,",
            "\"eligibility\":\"non_replayable_operation\",",
            "\"event_id\":\"01a0d2e9-5858-7e99-b1ca-9611d45a549d\",\"gap_reason\":null,",
            "\"imported\":false,\"ingested_at\":\"2026-09-24T10:15:03.000Z\",",
            "\"occurred_at\":\"2026-09-24T10:15:03.000Z\",\"origin_profile\":\"personal\",",
            "\"payload_classification\":\"metadata_only\",\"permanently_ineligible\":false,",
            "\"product\":\"eltanin\",\"product_version\":\"0.1.0\",\"profile\":\"personal\",",
            "\"schema_version\":1,\"scope_id\":null,\"tenant_id\":null,",
            "\"transport_state\":\"pending\",\"would_action\":\"allow\"}",
        ])
    );
    assert_eq!(event.integrity.content_hash.alg, "sha256");
    assert_eq!(
        event.integrity.content_hash.value,
        "027e2ae5471e6bbf3a5683ba72ea52dc66c2d897e4fa93e49e5ad30c0e192855"
    );
}

fn concat_fields(parts: &[&str]) -> String {
    parts.concat()
}
