//! The parts of a native audit-log scan the evidence projection reads:
//! record identity, time, enforcement mode, session and outcome, plus the
//! scan's own gap and retention signals.

use vstd::prelude::*;

use crate::lease::IssuerInstanceId;
use crate::session::SessionId;

verus! {

/// A wall-clock reading: seconds and nanoseconds since the Unix epoch.
#[derive(Debug, Clone, Copy, PartialEq, Eq, Structural)]
pub struct WallClockTime {
    pub unix_secs: i64,
    pub nanos: u32,
}

/// The identity of one audit record: its writer's instance and sequence.
#[derive(Debug, Clone, PartialEq, Eq)]
pub struct AuditEventId {
    pub instance: IssuerInstanceId,
    pub sequence: u64,
}

/// Whether a record was written in shadow (observe) or enforce mode.
#[derive(Debug, Clone, Copy, PartialEq, Eq, Structural)]
pub enum RecordedEnforcementMode {
    Shadow,
    Enforce,
}

/// What the agent recorded as the outcome of one request.
#[derive(Debug, Clone, Copy, PartialEq, Eq, Structural)]
pub enum RecordedOutcome {
    Granted,
    GrantedByDelegation,
    WouldGrant,
    PolicyDenied,
    PeerNotAuthorizable,
    LeaseIssueFailed,
    ReleaseRefused,
    ReleaseUnknownLease,
    SessionRequired,
    SessionEstablishFailed,
    SessionNotFound,
    ApprovalRequired,
    ApprovalDenied,
    DelegationRefused,
    StepUpRequired,
    RiskDenied,
    EnforcementRefused,
    BackendFailed,
    CapacityExhausted,
    ApprovalGateObserveFailed,
    ApprovalInternalError,
    DelegationIndeterminate,
    Released,
    StatusReported,
    SessionEstablished,
    SessionListed,
    SessionTerminated,
    ApprovalRecorded,
    ApprovalListed,
    ApprovalForgotten,
}

/// One native audit record, as far as the projection reads it.
#[derive(Debug, Clone, PartialEq, Eq)]
pub struct AuditRecord {
    pub event_id: AuditEventId,
    pub recorded_at: WallClockTime,
    pub mode: RecordedEnforcementMode,
    pub session: Option<SessionId>,
    pub outcome: RecordedOutcome,
}

/// A log line that could not be read as a record; its event id when it
/// could still be recovered.
#[derive(Debug, Clone, PartialEq, Eq)]
pub struct UnreadableLine {
    pub event_id: Option<AuditEventId>,
}

/// One agent-lifecycle entry of the log.
#[derive(Debug, Clone, PartialEq, Eq)]
pub struct AgentEvent {
    pub event_id: AuditEventId,
}

/// One scan of the native audit log.
#[derive(Debug, Clone, PartialEq, Eq)]
pub struct LogScan {
    pub records: Vec<AuditRecord>,
    /// Sequence numbers reserved but never written.
    pub gaps: Vec<u64>,
    pub unreadable: Vec<UnreadableLine>,
    /// Rotated-away generations; non-empty when rotation discarded some.
    pub retention_floor: Vec<u64>,
    pub agent_events: Vec<AgentEvent>,
}

impl Default for LogScan {
    fn default() -> (s: Self)
        ensures
            s.records@.len() == 0,
            s.gaps@.len() == 0,
            s.unreadable@.len() == 0,
            s.retention_floor@.len() == 0,
            s.agent_events@.len() == 0,
    {
        LogScan {
            records: Vec::new(),
            gaps: Vec::new(),
            unreadable: Vec::new(),
            retention_floor: Vec::new(),
            agent_events: Vec::new(),
        }
    }
}

} // verus!
