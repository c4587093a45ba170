//! The frozen `schema_version: 1` evidence event.
//!
//! Deliberate deviations from the schema's ideal, each disclosed in the
//! summary's unsupported notes: `event_id` is derived deterministically
//! from the native record identity (so re-projecting a line reproduces
//! it) rather than minted at random; `ingested_at` is projection time,
//! not store-append latency; `origin_profile` is the profile configured
//! at projection time.

use vstd::prelude::*;

use crate::decimal::{hex_fixed, push_hex_fixed};
use crate::dogfood::audit::{AuditEventId, WallClockTime};
use crate::dogfood::rfc3339::{format_rfc3339_millis, rfc3339_text};
use crate::text::{push_str, push_utf8, string_of, utf8};

pub mod unsupported;

verus! {

/// This adapter's own version, distinct from the product's.
pub const ADAPTER_VERSION: &'static str = "0.1.0";

/// The product this adapter reports for.
pub const PRODUCT: &'static str = "eltanin";

/// The evidence schema version (independent of the domain schema).
pub const SCHEMA_VERSION: u32 = 1u32;

/// The evidence profile records are projected under.
#[derive(Debug, Clone, Copy, PartialEq, Eq, Structural)]
pub enum Profile {
    Personal,
    Corporate,
}

impl Profile {
    pub open spec fn spec_text(self) -> Seq<char> {
        match self {
            Profile::Personal => "personal"@,
            Profile::Corporate => "corporate"@,
        }
    }

    /// The schema's snake-case name of this profile.
    pub fn as_str(self) -> (s: &'static str)
        ensures
            s@ == self.spec_text(),
    {
        proof {
            reveal_strlit("personal");
            reveal_strlit("corporate");
        }
        match self {
            Profile::Personal => "personal",
            Profile::Corporate => "corporate",
        }
    }
}

/// Whether a decision was only observed or really enforced.
#[derive(Debug, Clone, Copy, PartialEq, Eq, Structural)]
pub enum DecisionMode {
    Observe,
    Enforce,
}

impl DecisionMode {
    pub open spec fn spec_text(self) -> Seq<char> {
        match self {
            DecisionMode::Observe => "observe"@,
            DecisionMode::Enforce => "enforce"@,
        }
    }

    /// The schema's snake-case name of this mode.
    pub fn as_str(self) -> (s: &'static str)
        ensures
            s@ == self.spec_text(),
    {
        proof {
            reveal_strlit("observe");
            reveal_strlit("enforce");
        }
        match self {
            DecisionMode::Observe => "observe",
            DecisionMode::Enforce => "enforce",
        }
    }
}

/// What actually happened (or would have).
#[derive(Debug, Clone, Copy, PartialEq, Eq, Structural)]
pub enum ActualAction {
    Allow,
    Deny,
    Warn,
    NoOp,
    Error,
}

impl ActualAction {
    pub open spec fn spec_text(self) -> Seq<char> {
        match self {
            ActualAction::Allow => "allow"@,
            ActualAction::Deny => "deny"@,
            ActualAction::Warn => "warn"@,
            ActualAction::NoOp => "no_op"@,
            ActualAction::Error => "error"@,
        }
    }

    /// The schema's snake-case name of this action.
    pub fn as_str(self) -> (s: &'static str)
        ensures
            s@ == self.spec_text(),
    {
        proof {
            reveal_strlit("allow");
            reveal_strlit("deny");
            reveal_strlit("warn");
            reveal_strlit("no_op");
            reveal_strlit("error");
        }
        match self {
            ActualAction::Allow => "allow",
            ActualAction::Deny => "deny",
            ActualAction::Warn => "warn",
            ActualAction::NoOp => "no_op",
            ActualAction::Error => "error",
        }
    }
}

/// How completely a record covers what happened.
#[derive(Debug, Clone, Copy, PartialEq, Eq, Structural)]
pub enum Coverage {
    Full,
    Partial,
    Gap,
}

impl Coverage {
    pub open spec fn spec_text(self) -> Seq<char> {
        match self {
            Coverage::Full => "full"@,
            Coverage::Partial => "partial"@,
            Coverage::Gap => "gap"@,
        }
    }

    /// The schema's snake-case name of this coverage.
    pub fn as_str(self) -> (s: &'static str)
        ensures
            s@ == self.spec_text(),
    {
        proof {
            reveal_strlit("full");
            reveal_strlit("partial");
            reveal_strlit("gap");
        }
        match self {
            Coverage::Full => "full",
            Coverage::Partial => "partial",
            Coverage::Gap => "gap",
        }
    }
}

/// Why coverage has a gap.
#[derive(Debug, Clone, Copy, PartialEq, Eq, Structural)]
pub enum GapReason {
    BufferOverflow,
    DiskCap,
    AdapterUnsupported,
    SourceUnavailable,
    RedactionFailed,
    Unknown,
}

impl GapReason {
    pub open spec fn spec_text(self) -> Seq<char> {
        match self {
            GapReason::BufferOverflow => "buffer_overflow"@,
            GapReason::DiskCap => "disk_cap"@,
            GapReason::AdapterUnsupported => "adapter_unsupported"@,
            GapReason::SourceUnavailable => "source_unavailable"@,
            GapReason::RedactionFailed => "redaction_failed"@,
            GapReason::Unknown => "unknown"@,
        }
    }

    /// The schema's snake-case name of this reason.
    pub fn as_str(self) -> (s: &'static str)
        ensures
            s@ == self.spec_text(),
    {
        proof {
            reveal_strlit("buffer_overflow");
            reveal_strlit("disk_cap");
            reveal_strlit("adapter_unsupported");
            reveal_strlit("source_unavailable");
            reveal_strlit("redaction_failed");
            reveal_strlit("unknown");
        }
        match self {
            GapReason::BufferOverflow => "buffer_overflow",
            GapReason::DiskCap => "disk_cap",
            GapReason::AdapterUnsupported => "adapter_unsupported",
            GapReason::SourceUnavailable => "source_unavailable",
            GapReason::RedactionFailed => "redaction_failed",
            GapReason::Unknown => "unknown",
        }
    }
}

/// What kind of content a record carries: metadata only, never payload.
#[derive(Debug, Clone, Copy, PartialEq, Eq, Structural)]
pub enum PayloadClassification {
    MetadataOnly,
}

/// Where a record is in transport.
#[derive(Debug, Clone, Copy, PartialEq, Eq, Structural)]
pub enum TransportState {
    Pending,
}

/// Whether a record may be replayed as evidence.
#[derive(Debug, Clone, Copy, PartialEq, Eq, Structural)]
pub enum Eligibility {
    ReplayableEvidence,
    NonReplayableOperation,
}

impl Eligibility {
    pub open spec fn spec_text(self) -> Seq<char> {
        match self {
            Eligibility::ReplayableEvidence => "replayable_evidence"@,
            Eligibility::NonReplayableOperation => "non_replayable_operation"@,
        }
    }

    /// The schema's snake-case name of this eligibility.
    pub fn as_str(self) -> (s: &'static str)
        ensures
            s@ == self.spec_text(),
    {
        proof {
            reveal_strlit("replayable_evidence");
            reveal_strlit("non_replayable_operation");
        }
        match self {
            Eligibility::ReplayableEvidence => "replayable_evidence",
            Eligibility::NonReplayableOperation => "non_replayable_operation",
        }
    }
}

/// The integrity envelope: the hash of the canonical event, computed
/// with this member itself left out.
#[derive(Debug, Clone, PartialEq, Eq)]
pub struct Integrity {
    pub canonicalization: &'static str,
    pub content_hash: ContentHash,
}

/// A content hash and its algorithm.
#[derive(Debug, Clone, PartialEq, Eq)]
pub struct ContentHash {
    pub alg: &'static str,
    pub value: String,
}

/// The frozen evidence event: exactly the schema's fields, no more.
#[derive(Debug, Clone, PartialEq)]
pub struct Event {
    pub event_id: String,
    pub schema_version: u32,
    pub product: &'static str,
    pub product_version: String,
    pub adapter_version: String,
    pub occurred_at: String,
    pub ingested_at: String,
    pub profile: Profile,
    pub origin_profile: Profile,
    pub decision_mode: DecisionMode,
    pub scope_id: Option<String>,
    pub actual_action: ActualAction,
    pub would_action: Option<ActualAction>,
    pub coverage: Coverage,
    pub gap_reason: Option<GapReason>,
    pub dropped_count: u64,
    pub payload_classification: PayloadClassification,
    pub integrity: Integrity,
    pub destination: &'static str,
    pub tenant_id: Option<String>,
    pub transport_state: TransportState,
    pub eligibility: Eligibility,
    pub permanently_ineligible: bool,
    pub imported: bool,
}

/// The bytes of `x` in little-endian order.
pub open spec fn le_bytes_u64(x: u64) -> Seq<u8> {
    Seq::new(8, |i: int| ((x as nat / pow256(i)) % 256) as u8)
}

/// `256` to the power `i`.
pub open spec fn pow256(i: int) -> nat
    decreases i,
{
    if i <= 0 {
        1
    } else {
        256 * pow256(i - 1)
    }
}

/// The bytes an event id digests: the instance tag as UTF-8, `#`, then
/// the sequence number in little-endian order.
pub open spec fn event_id_preimage(instance: Seq<char>, sequence: u64) -> Seq<u8> {
    utf8(instance) + seq![35u8] + le_bytes_u64(sequence)
}

/// Milliseconds since the epoch of a reading, saturating; 0 before the
/// epoch.
pub open spec fn epoch_millis(t: WallClockTime) -> nat {
    if t.unix_secs < 0 {
        0
    } else if t.unix_secs * 1000 + t.nanos / 1000000 <= u64::MAX {
        (t.unix_secs * 1000 + t.nanos / 1000000) as nat
    } else {
        u64::MAX as nat
    }
}

/// The v7-shaped id text of a record: 48 timestamp bits from
/// `recorded_at` (milliseconds), the version nibble 7, 12 bits of the
/// digest of [`event_id_preimage`], the variant bits `10`, then 62 more
/// digest bits — deterministic, never random.
pub open spec fn event_id_text(instance: Seq<char>, sequence: u64, recorded_at: WallClockTime) -> Seq<
    char,
> {
    let ts = epoch_millis(recorded_at) % 0x1000000000000;
    let d = crate::digest::sha256_of(event_id_preimage(instance, sequence));
    hex_fixed(ts / 65536, 8) + "-"@ + hex_fixed(ts % 65536, 4) + "-"@ + hex_fixed(
        (0x7000 + d[0] * 16 + d[1] / 16) as nat,
        4,
    ) + "-"@ + hex_fixed((0x8000 + (d[2] % 64) * 256 + d[3]) as nat, 4) + "-"@ + hex_fixed(
        (d[4] * 0x10000000000 + d[5] * 0x100000000 + d[6] * 0x1000000 + d[7] * 0x10000 + d[8]
            * 0x100 + d[9]) as nat,
        12,
    )
}

/// Append the little-endian bytes of `x`.
fn push_le_u64(out: &mut Vec<u8>, x: u64)
    ensures
        final(out)@ == old(out)@ + le_bytes_u64(x),
{
    let ghost start = out@;
    let mut v: u64 = x;
    let mut i: usize = 0;
    assert(pow256(0) == 1);
    assert(x as nat / 1 == x as nat);
    while i < 8
        invariant
            i <= 8,
            out@.len() == start.len() + i,
            out@.take(start.len() as int) == start,
            v as nat == x as nat / pow256(i as int),
            forall|k: int|
                0 <= k < i ==> out@[start.len() + k] == ((x as nat / pow256(k)) % 256) as u8,
        decreases 8 - i,
    {
        out.push((v % 256) as u8);
        proof {
            assert(pow256(i + 1) == 256 * pow256(i as int));
            assert(pow256(i as int) > 0) by {
                lemma_pow256_positive(i as int);
            }
            assert((x as nat / pow256(i as int)) / 256 == x as nat / (256 * pow256(i as int)))
                by (nonlinear_arith)
                requires
                    pow256(i as int) > 0,
            ;
        }
        v = v / 256;
        i = i + 1;
    }
    assert(out@ =~= start + le_bytes_u64(x));
}

/// Powers of 256 are positive.
proof fn lemma_pow256_positive(i: int)
    ensures
        pow256(i) > 0,
    decreases i,
{
    if i > 0 {
        lemma_pow256_positive(i - 1);
    }
}

/// Derive the v7-shaped `event_id` of a native record from its identity
/// and `recorded_at`: the same record always yields the same id.
pub fn derive_event_id(id: &AuditEventId, recorded_at: WallClockTime) -> (s: String)
    ensures
        s@ == event_id_text(id.instance@, id.sequence, recorded_at),
{
    proof {
        reveal_strlit("-");
    }
    let millis: u64 = if recorded_at.unix_secs >= 0 {
        let secs = recorded_at.unix_secs as u64;
        let scaled = match secs.checked_mul(1000) {
            Some(v) => v,
            None => u64::MAX,
        };
        match scaled.checked_add((recorded_at.nanos / 1000000) as u64) {
            Some(v) => v,
            None => u64::MAX,
        }
    } else {
        0
    };
    let ts: u64 = millis % 0x1000000000000;
    let mut bytes: Vec<u8> = Vec::new();
    push_utf8(&mut bytes, id.instance.as_str());
    bytes.push(35u8);
    push_le_u64(&mut bytes, id.sequence);
    proof {
        assert(bytes@ =~= event_id_preimage(id.instance@, id.sequence));
    }
    let d = crate::digest::sha256(bytes.as_slice());
    let mut s = String::new();
    push_hex_fixed(&mut s, (ts / 65536) as u128, 8);
    push_str(&mut s, "-");
    push_hex_fixed(&mut s, (ts % 65536) as u128, 4);
    push_str(&mut s, "-");
    push_hex_fixed(&mut s, (0x7000u32 + d[0] as u32 * 16 + d[1] as u32 / 16) as u128, 4);
    push_str(&mut s, "-");
    push_hex_fixed(&mut s, (0x8000u32 + (d[2] as u32 % 64) * 256 + d[3] as u32) as u128, 4);
    push_str(&mut s, "-");
    let tail: u64 = d[4] as u64 * 0x10000000000 + d[5] as u64 * 0x100000000 + d[6] as u64
        * 0x1000000 + d[7] as u64 * 0x10000 + d[8] as u64 * 0x100 + d[9] as u64;
    push_hex_fixed(&mut s, tail as u128, 12);
    proof {
        assert(millis as nat == epoch_millis(recorded_at));
        assert(s@ =~= event_id_text(id.instance@, id.sequence, recorded_at));
    }
    s
}

/// The sentinel a failed timestamp is reported as.
pub open spec fn sentinel_stamp() -> Seq<char> {
    "1970-01-01T00:00:00.000Z"@
}

/// The text [`format_timestamp_or_sentinel`] gives a reading.
pub open spec fn stamp_or_sentinel(time: WallClockTime) -> Seq<char> {
    if time.unix_secs < 0 {
        sentinel_stamp()
    } else {
        rfc3339_text(time)
    }
}

/// [`format_rfc3339_millis`] that never fails: a pre-epoch reading is
/// reported as an obviously invalid sentinel rather than aborting the
/// whole projection.
pub fn format_timestamp_or_sentinel(time: WallClockTime) -> (s: String)
    ensures
        s@ == stamp_or_sentinel(time),
{
    proof {
        reveal_strlit("1970-01-01T00:00:00.000Z");
    }
    match format_rfc3339_millis(time) {
        Ok(s) => s,
        Err(_) => string_of("1970-01-01T00:00:00.000Z"),
    }
}

} // verus!
