//! The read-only projection of one audit-log scan into evidence events.
//!
//! Every projected decision record is `non_replayable_operation`: they
//! are all authorization-gate traffic. The one `replayable_evidence`
//! record is the derived summary of the scan.

use vstd::prelude::*;

use crate::decimal::{decimal, push_decimal};
use crate::dogfood::audit::{
    AuditEventId, AuditRecord, LogScan, RecordedEnforcementMode, RecordedOutcome, WallClockTime,
};
use crate::dogfood::canon::{content_hash_text, hash_event, CANONICALIZATION_ID};
use crate::dogfood::event::{
    derive_event_id, event_id_text, format_timestamp_or_sentinel, stamp_or_sentinel, unsupported,
    ActualAction, ContentHash, Coverage, DecisionMode, Eligibility, Event, GapReason, Integrity,
    PayloadClassification, Profile, TransportState, ADAPTER_VERSION, PRODUCT, SCHEMA_VERSION,
};
use crate::lease::IssuerInstanceId;
use crate::session::SessionId;
use crate::text::{chars_of, contains_chars, contains_run, push_str, str_eq, string_of};

verus! {

/// The environment variable naming the profile records are projected
/// under.
pub const PROFILE_ENV_VAR: &'static str = "ELTANIN_DOGFOOD_PROFILE";

/// The profile a raw setting selects: exactly `corporate` (case-sensitive)
/// selects `Corporate`; anything else, unset included, the safer
/// `Personal`.
pub fn resolve_profile(raw: Option<&str>) -> (p: Profile)
    ensures
        p == (if raw matches Some(s) && s@ == "corporate"@ {
            Profile::Corporate
        } else {
            Profile::Personal
        }),
{
    match raw {
        Some(s) => if str_eq(s, "corporate") {
            Profile::Corporate
        } else {
            Profile::Personal
        },
        None => Profile::Personal,
    }
}

/// A record the projection refused rather than fabricate a value for.
#[derive(Debug, Clone, PartialEq, Eq)]
pub struct MalformedRecord {
    pub event_id: AuditEventId,
    pub reason: String,
}

/// Everything one projection produces: one event per projectable record,
/// the refused records, and the one summary event.
pub struct Projection {
    pub events: Vec<Event>,
    pub malformed: Vec<MalformedRecord>,
    pub summary: Event,
}

/// The evidence decision mode of a recorded enforcement mode.
pub open spec fn decision_mode_of(mode: RecordedEnforcementMode) -> DecisionMode {
    match mode {
        RecordedEnforcementMode::Shadow => DecisionMode::Observe,
        RecordedEnforcementMode::Enforce => DecisionMode::Enforce,
    }
}

/// `(actual_action, would_action)` for an outcome: under `Observe`
/// nothing really happened, so the action is always `NoOp` (with what
/// would have happened for a would-grant or a policy denial); under
/// `Enforce`, what really happened, grouped by effect.
pub open spec fn outcome_actions(outcome: RecordedOutcome, mode: DecisionMode) -> (
    ActualAction,
    Option<ActualAction>,
) {
    match mode {
        DecisionMode::Observe => (
            ActualAction::NoOp,
            match outcome {
                RecordedOutcome::WouldGrant => Some(ActualAction::Allow),
                RecordedOutcome::PolicyDenied => Some(ActualAction::Deny),
                _ => None,
            },
        ),
        DecisionMode::Enforce => (
            match outcome {
                RecordedOutcome::Granted | RecordedOutcome::GrantedByDelegation =>
                    ActualAction::Allow,
                RecordedOutcome::PolicyDenied | RecordedOutcome::PeerNotAuthorizable
                | RecordedOutcome::LeaseIssueFailed | RecordedOutcome::ReleaseRefused
                | RecordedOutcome::ReleaseUnknownLease | RecordedOutcome::SessionRequired
                | RecordedOutcome::SessionEstablishFailed | RecordedOutcome::SessionNotFound
                | RecordedOutcome::ApprovalRequired | RecordedOutcome::ApprovalDenied
                | RecordedOutcome::DelegationRefused | RecordedOutcome::StepUpRequired
                | RecordedOutcome::RiskDenied => ActualAction::Deny,
                RecordedOutcome::EnforcementRefused | RecordedOutcome::BackendFailed
                | RecordedOutcome::CapacityExhausted | RecordedOutcome::ApprovalGateObserveFailed
                | RecordedOutcome::ApprovalInternalError
                | RecordedOutcome::DelegationIndeterminate => ActualAction::Error,
                _ => ActualAction::NoOp,
            },
            None,
        ),
    }
}

/// Map one outcome under `mode`.
fn map_outcome(outcome: RecordedOutcome, mode: DecisionMode) -> (r: (
    ActualAction,
    Option<ActualAction>,
))
    ensures
        r == outcome_actions(outcome, mode),
{
    match mode {
        DecisionMode::Observe => {
            let would = match outcome {
                RecordedOutcome::WouldGrant => Some(ActualAction::Allow),
                RecordedOutcome::PolicyDenied => Some(ActualAction::Deny),
                _ => None,
            };
            (ActualAction::NoOp, would)
        },
        DecisionMode::Enforce => {
            let actual = match outcome {
                RecordedOutcome::Granted | RecordedOutcome::GrantedByDelegation =>
                    ActualAction::Allow,
                RecordedOutcome::PolicyDenied | RecordedOutcome::PeerNotAuthorizable
                | RecordedOutcome::LeaseIssueFailed | RecordedOutcome::ReleaseRefused
                | RecordedOutcome::ReleaseUnknownLease | RecordedOutcome::SessionRequired
                | RecordedOutcome::SessionEstablishFailed | RecordedOutcome::SessionNotFound
                | RecordedOutcome::ApprovalRequired | RecordedOutcome::ApprovalDenied
                | RecordedOutcome::DelegationRefused | RecordedOutcome::StepUpRequired
                | RecordedOutcome::RiskDenied => ActualAction::Deny,
                RecordedOutcome::EnforcementRefused | RecordedOutcome::BackendFailed
                | RecordedOutcome::CapacityExhausted | RecordedOutcome::ApprovalGateObserveFailed
                | RecordedOutcome::ApprovalInternalError
                | RecordedOutcome::DelegationIndeterminate => ActualAction::Error,
                _ => ActualAction::NoOp,
            };
            (actual, None)
        },
    }
}

/// The `issuer#sequence` text naming a session.
pub open spec fn scope_text(session: Option<SessionId>) -> Option<Seq<char>> {
    match session {
        Some(s) => Some(s.issuer@ + "#"@ + decimal(s.sequence as nat)),
        None => None,
    }
}

/// The `instance#sequence` text naming an audit record.
pub open spec fn event_id_display(id: AuditEventId) -> Seq<char> {
    id.instance@ + "#"@ + decimal(id.sequence as nat)
}

/// Why an enforce-mode record without a session is refused.
pub open spec fn missing_scope_reason(id: AuditEventId) -> Seq<char> {
    "record "@ + event_id_display(id)
        + " is decision_mode=enforce with session=None — scope_id is required under enforce (ADR-0012 §3/DFC-SCHEMA-12); refusing rather than fabricating a scope"@
}

/// A record is projectable unless it is enforce-mode without a session:
/// a scope is required under enforce and is never fabricated.
pub open spec fn projectable(record: AuditRecord) -> bool {
    !(record.mode == RecordedEnforcementMode::Enforce && record.session is None)
}

/// `i` is the integrity envelope of `e`.
pub open spec fn integrity_fits(i: Integrity, e: Event) -> bool {
    &&& i.canonicalization@ == CANONICALIZATION_ID@
    &&& i.content_hash.alg@ == "sha256"@
    &&& i.content_hash.value@ == content_hash_text(e)
}

/// The text of an optional string.
pub open spec fn opt_string_text(o: Option<String>) -> Option<Seq<char>> {
    match o {
        Some(s) => Some(s@),
        None => None,
    }
}

/// The members every projected event shares.
pub open spec fn common_fits(e: Event, profile: Profile, product_version: Seq<char>) -> bool {
    &&& e.schema_version == SCHEMA_VERSION
    &&& e.product@ == PRODUCT@
    &&& e.product_version@ == product_version
    &&& e.adapter_version@ == ADAPTER_VERSION@
    &&& e.profile == profile
    &&& e.origin_profile == profile
    &&& e.payload_classification == PayloadClassification::MetadataOnly
    &&& e.destination@ == "local_only"@
    &&& e.tenant_id is None
    &&& e.transport_state == TransportState::Pending
    &&& e.permanently_ineligible == (profile == Profile::Corporate)
    &&& !e.imported
    &&& integrity_fits(e.integrity, e)
}

/// `e` is the projection of `record`.
#[verifier::opaque]
pub open spec fn record_event_fits(
    e: Event,
    record: AuditRecord,
    profile: Profile,
    product_version: Seq<char>,
    now: WallClockTime,
) -> bool {
    let mode = decision_mode_of(record.mode);
    &&& common_fits(e, profile, product_version)
    &&& e.event_id@ == event_id_text(
        record.event_id.instance@,
        record.event_id.sequence,
        record.recorded_at,
    )
    &&& e.occurred_at@ == stamp_or_sentinel(record.recorded_at)
    &&& e.ingested_at@ == stamp_or_sentinel(now)
    &&& e.decision_mode == mode
    &&& opt_string_text(e.scope_id) == scope_text(record.session)
    &&& (e.actual_action, e.would_action) == outcome_actions(record.outcome, mode)
    &&& e.coverage == Coverage::Full
    &&& e.gap_reason is None
    &&& e.dropped_count == 0
    &&& e.eligibility == Eligibility::NonReplayableOperation
}

/// An integrity envelope with an empty hash, filled in once the event is
/// complete.
fn placeholder_integrity() -> (i: Integrity)
    ensures
        i.canonicalization@ == CANONICALIZATION_ID@,
        i.content_hash.alg@ == "sha256"@,
        i.content_hash.value@ == Seq::<char>::empty(),
{
    Integrity {
        canonicalization: CANONICALIZATION_ID,
        content_hash: ContentHash { alg: "sha256", value: String::new() },
    }
}

/// The `issuer#sequence` text of a session.
fn session_text(s: &SessionId) -> (t: String)
    ensures
        t@ == s.issuer@ + "#"@ + decimal(s.sequence as nat),
{
    let mut t = string_of(s.issuer.as_str());
    push_str(&mut t, "#");
    push_decimal(&mut t, s.sequence as u128);
    t
}

/// Project one record into an event, or refuse it: an enforce-mode
/// record without a session has no scope, and none is fabricated.
pub fn project_record(
    record: &AuditRecord,
    profile: Profile,
    product_version: &str,
    now: WallClockTime,
) -> (r: Result<Event, String>)
    ensures
        !projectable(*record) ==> (r matches Err(s) && s@ == missing_scope_reason(
            record.event_id,
        )),
        projectable(*record) ==> (r matches Ok(e) && record_event_fits(
            e,
            *record,
            profile,
            product_version@,
            now,
        )),
{
    let decision_mode = match record.mode {
        RecordedEnforcementMode::Shadow => DecisionMode::Observe,
        RecordedEnforcementMode::Enforce => DecisionMode::Enforce,
    };
    let scope_id = match &record.session {
        Some(s) => Some(session_text(s)),
        None => None,
    };
    if decision_mode == DecisionMode::Enforce && scope_id.is_none() {
        let mut reason = string_of("record ");
        push_str(&mut reason, record.event_id.instance.as_str());
        push_str(&mut reason, "#");
        push_decimal(&mut reason, record.event_id.sequence as u128);
        push_str(
            &mut reason,
            " is decision_mode=enforce with session=None — scope_id is required under enforce (ADR-0012 §3/DFC-SCHEMA-12); refusing rather than fabricating a scope",
        );
        return Err(reason);
    }
    let (actual_action, would_action) = map_outcome(record.outcome, decision_mode);
    let event_id = derive_event_id(&record.event_id, record.recorded_at);
    let occurred_at = format_timestamp_or_sentinel(record.recorded_at);
    let ingested_at = format_timestamp_or_sentinel(now);
    let mut event = Event {
        event_id,
        schema_version: SCHEMA_VERSION,
        product: PRODUCT,
        product_version: string_of(product_version),
        adapter_version: string_of(ADAPTER_VERSION),
        occurred_at,
        ingested_at,
        profile,
        origin_profile: profile,
        decision_mode,
        scope_id,
        actual_action,
        would_action,
        coverage: Coverage::Full,
        gap_reason: None,
        dropped_count: 0,
        payload_classification: PayloadClassification::MetadataOnly,
        integrity: placeholder_integrity(),
        destination: "local_only",
        tenant_id: None,
        transport_state: TransportState::Pending,
        eligibility: Eligibility::NonReplayableOperation,
        permanently_ineligible: match profile {
            Profile::Corporate => true,
            Profile::Personal => false,
        },
        imported: false,
    };
    let integrity = match hash_event(&event) {
        Ok(i) => i,
        Err(e) => {
            return Err(e.message());
        },
    };
    let ghost before = event;
    event.integrity = integrity;
    proof {
        assert(crate::dogfood::canon::canonical_text(event)
            == crate::dogfood::canon::canonical_text(before));
        reveal(content_hash_text);
        reveal(record_event_fits);
    }
    Ok(event)
}

/// How many lines of `lines` still carry a recovered event id.
pub open spec fn recovered_count(lines: Seq<crate::dogfood::audit::UnreadableLine>) -> nat
    decreases lines.len(),
{
    if lines.len() == 0 {
        0
    } else {
        recovered_count(lines.drop_last()) + if lines.last().event_id is Some {
            1nat
        } else {
            0nat
        }
    }
}

/// The instance tag of the summary's synthetic id: the first record's
/// instance, else the first agent event's, else a fixed sentinel — never
/// colliding with a real record's id.
pub open spec fn summary_instance_text(scan: LogScan) -> Seq<char> {
    if scan.records@.len() > 0 {
        scan.records@[0].event_id.instance@
    } else if scan.agent_events@.len() > 0 {
        scan.agent_events@[0].event_id.instance@
    } else {
        "dogfood-evidence-summary"@
    }
}

/// The summary's `(coverage, gap_reason)`: the most severe single reason
/// — unreadable-but-recovered lines (`unknown`), then reserved-but-unwritten
/// sequence numbers (`source_unavailable`), then rotation
/// (`buffer_overflow`) — else full coverage.
pub open spec fn summary_coverage(scan: LogScan) -> (Coverage, Option<GapReason>) {
    if recovered_count(scan.unreadable@) > 0 {
        (Coverage::Gap, Some(GapReason::Unknown))
    } else if scan.gaps@.len() > 0 {
        (Coverage::Gap, Some(GapReason::SourceUnavailable))
    } else if scan.retention_floor@.len() > 0 {
        (Coverage::Gap, Some(GapReason::BufferOverflow))
    } else {
        (Coverage::Full, None)
    }
}

/// `e` is the summary of `scan`.
#[verifier::opaque]
pub open spec fn summary_fits(
    e: Event,
    scan: LogScan,
    profile: Profile,
    product_version: Seq<char>,
    now: WallClockTime,
) -> bool {
    &&& common_fits(e, profile, product_version)
    &&& e.event_id@ == event_id_text(summary_instance_text(scan), 0, now)
    &&& e.occurred_at@ == stamp_or_sentinel(now)
    &&& e.ingested_at@ == stamp_or_sentinel(now)
    &&& e.decision_mode == DecisionMode::Observe
    &&& e.scope_id is None
    &&& e.actual_action == ActualAction::NoOp
    &&& e.would_action is None
    &&& (e.coverage, e.gap_reason) == summary_coverage(scan)
    &&& e.dropped_count == scan.gaps@.len() + recovered_count(scan.unreadable@)
    &&& e.eligibility == Eligibility::ReplayableEvidence
}

/// The instance tag of the summary's synthetic id.
fn summary_instance(scan: &LogScan) -> (i: IssuerInstanceId)
    ensures
        i@ == summary_instance_text(*scan),
{
    if scan.records.len() > 0 {
        scan.records[0].event_id.instance.duplicate()
    } else if scan.agent_events.len() > 0 {
        scan.agent_events[0].event_id.instance.duplicate()
    } else {
        IssuerInstanceId::new("dogfood-evidence-summary")
    }
}

/// How many unreadable lines still carry a recovered event id.
fn count_recovered(lines: &Vec<crate::dogfood::audit::UnreadableLine>) -> (n: u64)
    requires
        lines@.len() <= u64::MAX,
    ensures
        n == recovered_count(lines@),
{
    let mut n: u64 = 0;
    let mut i: usize = 0;
    while i < lines.len()
        invariant
            i <= lines@.len(),
            lines@.len() <= u64::MAX,
            n == recovered_count(lines@.take(i as int)),
            n <= i,
        decreases lines.len() - i,
    {
        proof {
            assert(lines@.take(i + 1).drop_last() =~= lines@.take(i as int));
        }
        if lines[i].event_id.is_some() {
            n = n + 1;
        }
        i = i + 1;
    }
    assert(lines@.take(i as int) =~= lines@);
    n
}

/// Build the one `replayable_evidence` aggregate of a scan: counts only
/// what the scan itself proves — reserved-but-unwritten sequence numbers
/// and unreadable lines whose id was recovered — never a guess for what
/// rotation discarded.
fn build_summary(
    scan: &LogScan,
    profile: Profile,
    product_version: &str,
    now: WallClockTime,
) -> (e: Event)
    requires
        scan.gaps@.len() + scan.unreadable@.len() <= u64::MAX,
    ensures
        summary_fits(e, *scan, profile, product_version@, now),
{
    let gap_count = scan.gaps.len() as u64;
    let unknown_count = count_recovered(&scan.unreadable);
    proof {
        lemma_recovered_count_bounded(scan.unreadable@);
    }
    let (coverage, gap_reason) = if unknown_count > 0 {
        (Coverage::Gap, Some(GapReason::Unknown))
    } else if gap_count > 0 {
        (Coverage::Gap, Some(GapReason::SourceUnavailable))
    } else if scan.retention_floor.len() > 0 {
        (Coverage::Gap, Some(GapReason::BufferOverflow))
    } else {
        (Coverage::Full, None)
    };
    let synthetic_id = AuditEventId { instance: summary_instance(scan), sequence: 0 };
    let mut event = Event {
        event_id: derive_event_id(&synthetic_id, now),
        schema_version: SCHEMA_VERSION,
        product: PRODUCT,
        product_version: string_of(product_version),
        adapter_version: string_of(ADAPTER_VERSION),
        occurred_at: format_timestamp_or_sentinel(now),
        ingested_at: format_timestamp_or_sentinel(now),
        profile,
        origin_profile: profile,
        decision_mode: DecisionMode::Observe,
        scope_id: None,
        actual_action: ActualAction::NoOp,
        would_action: None,
        coverage,
        gap_reason,
        dropped_count: gap_count + unknown_count,
        payload_classification: PayloadClassification::MetadataOnly,
        integrity: placeholder_integrity(),
        destination: "local_only",
        tenant_id: None,
        transport_state: TransportState::Pending,
        eligibility: Eligibility::ReplayableEvidence,
        permanently_ineligible: match profile {
            Profile::Corporate => true,
            Profile::Personal => false,
        },
        imported: false,
    };
    let integrity = match hash_event(&event) {
        Ok(i) => i,
        Err(_) => placeholder_integrity(),
    };
    let ghost before = event;
    event.integrity = integrity;
    proof {
        assert(crate::dogfood::canon::canonical_text(event)
            == crate::dogfood::canon::canonical_text(before));
        reveal(content_hash_text);
        reveal(summary_fits);
    }
    event
}

/// The recovered count never exceeds the number of lines.
proof fn lemma_recovered_count_bounded(lines: Seq<crate::dogfood::audit::UnreadableLine>)
    ensures
        recovered_count(lines) <= lines.len(),
    decreases lines.len(),
{
    if lines.len() > 0 {
        lemma_recovered_count_bounded(lines.drop_last());
    }
}

/// The events and refusals of projecting `records` in order: each
/// projectable record contributes its event, each other record its
/// refusal, both lists keeping the records' order.
pub open spec fn projection_fits(
    events: Seq<Event>,
    malformed: Seq<MalformedRecord>,
    records: Seq<AuditRecord>,
    profile: Profile,
    product_version: Seq<char>,
    now: WallClockTime,
) -> bool
    decreases records.len(),
{
    if records.len() == 0 {
        events.len() == 0 && malformed.len() == 0
    } else if projectable(records.last()) {
        &&& events.len() > 0
        &&& record_event_fits(events.last(), records.last(), profile, product_version, now)
        &&& projection_fits(
            events.drop_last(),
            malformed,
            records.drop_last(),
            profile,
            product_version,
            now,
        )
    } else {
        &&& malformed.len() > 0
        &&& malformed.last().event_id == records.last().event_id
        &&& malformed.last().reason@ == missing_scope_reason(records.last().event_id)
        &&& projection_fits(
            events,
            malformed.drop_last(),
            records.drop_last(),
            profile,
            product_version,
            now,
        )
    }
}

/// A copy of an audit event id.
fn duplicate_event_id(id: &AuditEventId) -> (r: AuditEventId)
    ensures
        r == *id,
{
    AuditEventId { instance: id.instance.duplicate(), sequence: id.sequence }
}

/// Project every record of `scan`, plus the one summary, under `profile`;
/// `now` is this projection's own reading, used only for `ingested_at`
/// and the summary.
pub fn project(scan: &LogScan, profile: Profile, product_version: &str, now: WallClockTime) -> (p:
    Projection)
    requires
        scan.gaps@.len() + scan.unreadable@.len() <= u64::MAX,
    ensures
        projection_fits(
            p.events@,
            p.malformed@,
            scan.records@,
            profile,
            product_version@,
            now,
        ),
        summary_fits(p.summary, *scan, profile, product_version@, now),
{
    let ghost records = scan.records@;
    let mut events: Vec<Event> = Vec::new();
    let mut malformed: Vec<MalformedRecord> = Vec::new();
    let mut i: usize = 0;
    while i < scan.records.len()
        invariant
            i <= records.len(),
            records == scan.records@,
            projection_fits(
                events@,
                malformed@,
                records.take(i as int),
                profile,
                product_version@,
                now,
            ),
        decreases scan.records.len() - i,
    {
        let record = &scan.records[i];
        let ghost prev_events = events@;
        let ghost prev_malformed = malformed@;
        proof {
            assert(records.take(i + 1).drop_last() =~= records.take(i as int));
            assert(records.take(i + 1).last() == records[i as int]);
        }
        match project_record(record, profile, product_version, now) {
            Ok(event) => {
                events.push(event);
                proof {
                    assert(events@.drop_last() =~= prev_events);
                }
            },
            Err(reason) => {
                let m = MalformedRecord { event_id: duplicate_event_id(&record.event_id), reason };
                malformed.push(m);
                proof {
                    assert(malformed@.drop_last() =~= prev_malformed);
                }
            },
        }
        i = i + 1;
    }
    proof {
        assert(records.take(i as int) =~= records);
    }
    let summary = build_summary(scan, profile, product_version, now);
    Projection { events, malformed, summary }
}

/// The unsupported notes of a scan, reported beside the summary: the
/// fixed disclosures, and the retention-floor one when rotation
/// discarded a generation.
pub fn summary_unsupported_notes(scan: &LogScan) -> (v: Vec<&'static str>)
    ensures
        v@.len() == if scan.retention_floor@.len() > 0 {
            4nat
        } else {
            3nat
        },
        v@[0]@ == unsupported::DEVICE_LEVEL_GPU_ENFORCEMENT@,
        v@[1]@ == unsupported::INGESTED_AT_IS_PROJECTION_TIME@,
        v@[2]@ == unsupported::ORIGIN_PROFILE_NOT_RECOVERABLE_FROM_LOG@,
        scan.retention_floor@.len() > 0 ==> v@[3]@
            == unsupported::EXACT_DROPPED_COUNT_BELOW_RETENTION_FLOOR@,
{
    let mut notes: Vec<&'static str> = Vec::new();
    notes.push(unsupported::DEVICE_LEVEL_GPU_ENFORCEMENT);
    notes.push(unsupported::INGESTED_AT_IS_PROJECTION_TIME);
    notes.push(unsupported::ORIGIN_PROFILE_NOT_RECOVERABLE_FROM_LOG);
    if scan.retention_floor.len() > 0 {
        notes.push(unsupported::EXACT_DROPPED_COUNT_BELOW_RETENTION_FLOOR);
    }
    notes
}

/// `s` with ASCII capitals folded to lower case. For the hardware terms
/// checked here this finds exactly what full Unicode lower-casing finds:
/// the only non-ASCII characters that lower-case into ASCII letters
/// (Kelvin sign, dotted capital I) cannot complete any of those terms.
pub open spec fn ascii_lower(s: Seq<char>) -> Seq<char> {
    s.map_values(|c: char| if 'A' <= c && c <= 'Z' { ((c as u8) + 32) as char } else { c })
}

/// The terms that may never appear in any serialized output, in sorted
/// order.
pub open spec fn forbidden_terms() -> Seq<Seq<char>> {
    seq!["cuda"@, "device"@, "gpu"@, "metal"@]
}

/// The forbidden hardware terms occurring in `serialized` (compared case
/// insensitively), in sorted order, each once.
pub fn scan_for_forbidden_hardware_terms(serialized: &str) -> (found: Vec<&'static str>)
    ensures
        found@.map_values(|t: &str| t@) == forbidden_terms().filter(
            |t: Seq<char>| contains_run(ascii_lower(serialized@), t),
        ),
{
    let chars = chars_of(serialized);
    let mut lower: Vec<char> = Vec::new();
    let mut i: usize = 0;
    while i < chars.len()
        invariant
            i <= chars@.len(),
            chars@ == serialized@,
            lower@ == ascii_lower(chars@.take(i as int)),
        decreases chars.len() - i,
    {
        let c = chars[i];
        let l = if 'A' <= c && c <= 'Z' {
            ((c as u8) + 32) as char
        } else {
            c
        };
        lower.push(l);
        assert(lower@ =~= ascii_lower(chars@.take(i + 1)));
        i = i + 1;
    }
    assert(chars@.take(i as int) =~= chars@);
    let terms: [&'static str; 4] = ["cuda", "device", "gpu", "metal"];
    let mut found: Vec<&'static str> = Vec::new();
    let mut k: usize = 0;
    while k < 4
        invariant
            k <= 4,
            lower@ == ascii_lower(serialized@),
            terms@.map_values(|t: &str| t@) == forbidden_terms(),
            found@.map_values(|t: &str| t@) == forbidden_terms().take(k as int).filter(
                |t: Seq<char>| contains_run(ascii_lower(serialized@), t),
            ),
        decreases 4 - k,
    {
        let term = terms[k];
        let needle = chars_of(term);
        let ghost prev = found@;
        proof {
            assert(forbidden_terms().take(k + 1).drop_last() =~= forbidden_terms().take(k as int));
            assert(forbidden_terms()[k as int] == term@);
            reveal(Seq::filter);
        }
        if contains_chars(&lower, &needle) {
            found.push(term);
            assert(found@.map_values(|t: &str| t@) =~= prev.map_values(|t: &str| t@).push(term@));
        }
        assert(found@.map_values(|t: &str| t@) =~= forbidden_terms().take(k + 1).filter(
            |t: Seq<char>| contains_run(ascii_lower(serialized@), t),
        ));
        k = k + 1;
    }
    assert(forbidden_terms().take(4) =~= forbidden_terms());
    found
}

/// Observe-mode records never claim an actual action: whatever the
/// outcome, a shadow record projects to `no_op`, so a personal-profile
/// record can never carry `actual_action = deny`.
pub proof fn law_observe_never_acts(outcome: RecordedOutcome)
    ensures
        outcome_actions(outcome, DecisionMode::Observe).0 == ActualAction::NoOp,
        decision_mode_of(RecordedEnforcementMode::Shadow) == DecisionMode::Observe,
{
}

/// An enforce-mode projection always carries a real scope, and no
/// projected decision record is ever replayable evidence or more than
/// metadata.
pub proof fn law_projected_records_are_scoped_metadata(
    e: Event,
    record: AuditRecord,
    profile: Profile,
    product_version: Seq<char>,
    now: WallClockTime,
)
    requires
        projectable(record),
        record_event_fits(e, record, profile, product_version, now),
    ensures
        e.decision_mode == DecisionMode::Enforce ==> e.scope_id is Some,
        e.eligibility == Eligibility::NonReplayableOperation,
        e.payload_classification == PayloadClassification::MetadataOnly,
        !(e.decision_mode == DecisionMode::Observe && e.actual_action == ActualAction::Deny),
{
    reveal(record_event_fits);
}


/// The outcomes that record a refusal of the request.
pub open spec fn is_refusal(o: RecordedOutcome) -> bool {
    o is PolicyDenied || o is PeerNotAuthorizable || o is LeaseIssueFailed || o is ReleaseRefused
        || o is ReleaseUnknownLease || o is SessionRequired || o is SessionEstablishFailed
        || o is SessionNotFound || o is ApprovalRequired || o is ApprovalDenied
        || o is DelegationRefused || o is StepUpRequired || o is RiskDenied
}

/// Law (enforce reports what really happened): an enforce-mode record
/// whose outcome is a refusal projects `actual_action = deny`, a grant
/// projects `allow`, and neither carries a `would_action` — a real
/// refusal such as a policy denial is never reported as a no-op.
pub proof fn law_enforced_refusal_is_a_deny(
    e: Event,
    record: AuditRecord,
    profile: Profile,
    product_version: Seq<char>,
    now: WallClockTime,
)
    requires
        record.mode == RecordedEnforcementMode::Enforce,
        record_event_fits(e, record, profile, product_version, now),
    ensures
        e.decision_mode == DecisionMode::Enforce,
        e.would_action is None,
        is_refusal(record.outcome) ==> e.actual_action == ActualAction::Deny,
        (record.outcome is Granted || record.outcome is GrantedByDelegation) ==> e.actual_action
            == ActualAction::Allow,
{
    reveal(record_event_fits);
}

} // verus!
