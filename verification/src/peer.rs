//! The local IPC peer credential contract.
//!
//! A [`PeerContext`] is what a platform collector hands back after reading
//! a connected Unix-domain-socket peer's kernel credential and
//! cross-checking it against independently observed process state: the
//! credential, an explicit [`PeerConsistency`] verdict, and the observed
//! [`ExecutionContext`] kept for audit whatever the verdict. The verdict
//! is always re-derived by [`classify_consistency`]; no production
//! constructor accepts one from the caller.

use vstd::prelude::*;

use crate::decimal::{decimal, push_decimal};
use crate::identity::{Evidence, EvidenceSource, ExecutionContext};
use crate::text::{push_str, string_of};

verus! {

/// The kernel-reported credential of a connected peer.
#[derive(Debug, Clone, Copy, PartialEq, Eq, Structural)]
pub struct PeerCredential {
    pid: u32,
    /// The peer's effective uid.
    effective_uid: u32,
    effective_gid: u32,
}

impl PeerCredential {
    pub closed spec fn spec_pid(&self) -> u32 {
        self.pid
    }

    pub closed spec fn spec_effective_uid(&self) -> u32 {
        self.effective_uid
    }

    pub closed spec fn spec_effective_gid(&self) -> u32 {
        self.effective_gid
    }

    /// A credential read from an OS peer-credential mechanism.
    pub fn from_kernel(pid: u32, effective_uid: u32, effective_gid: u32) -> (c: Self)
        ensures
            c.spec_pid() == pid,
            c.spec_effective_uid() == effective_uid,
            c.spec_effective_gid() == effective_gid,
    {
        PeerCredential { pid, effective_uid, effective_gid }
    }

    /// A credential for test doubles.
    pub fn new(pid: u32, uid: u32, gid: u32) -> (c: Self)
        ensures
            c.spec_pid() == pid,
            c.spec_effective_uid() == uid,
            c.spec_effective_gid() == gid,
    {
        Self::from_kernel(pid, uid, gid)
    }

    pub fn pid(&self) -> (p: u32)
        ensures
            p == self.spec_pid(),
    {
        self.pid
    }

    pub fn effective_uid(&self) -> (u: u32)
        ensures
            u == self.spec_effective_uid(),
    {
        self.effective_uid
    }

    pub fn effective_gid(&self) -> (g: u32)
        ensures
            g == self.spec_effective_gid(),
    {
        self.effective_gid
    }
}

/// Whether the connect-time credential and the independently observed
/// process state describe the same process. "Could not tell" is its own
/// state, never confusable with a match or a mismatch.
#[derive(Debug, Clone, PartialEq, Eq)]
pub enum PeerConsistency {
    /// The peer's effective uid matches the real or the effective uid
    /// observed for that pid.
    Consistent,
    /// The peer's effective uid matches neither observed uid — most
    /// likely pid reuse between capture and observation.
    CredentialDivergence {
        peer_effective_uid: u32,
        observed_real_uid: Evidence<u32>,
        observed_effective_uid: Evidence<u32>,
    },
    /// The kernel reported a peer that cannot be mapped to a real pid.
    PeerUnmapped,
    /// Independent observation was insufficient to cross-check at all.
    Indeterminate { reason: String },
}

/// `evidence` is a present, non-self-asserted uid equal to `uid`.
pub open spec fn uid_confirms(evidence: Evidence<u32>, uid: u32) -> bool {
    evidence matches Evidence::Present { value, source } && source != EvidenceSource::SelfAsserted
        && value == uid
}

/// The verdict [`classify_consistency`] gives: `Consistent` when either
/// observation confirms the peer's effective uid; `Indeterminate` (with
/// the real-uid reason) when both observations are missing; otherwise a
/// divergence carrying everything that was seen.
pub open spec fn spec_classify(
    peer_effective_uid: u32,
    observed_real_uid: Evidence<u32>,
    observed_effective_uid: Evidence<u32>,
) -> PeerConsistency {
    if uid_confirms(observed_real_uid, peer_effective_uid) || uid_confirms(
        observed_effective_uid,
        peer_effective_uid,
    ) {
        PeerConsistency::Consistent
    } else if observed_real_uid is Missing && observed_effective_uid is Missing {
        PeerConsistency::Indeterminate { reason: observed_real_uid->reason }
    } else {
        PeerConsistency::CredentialDivergence {
            peer_effective_uid,
            observed_real_uid,
            observed_effective_uid,
        }
    }
}

/// Whether a uid observation confirms `uid`.
fn confirms(evidence: &Evidence<u32>, uid: u32) -> (b: bool)
    ensures
        b == uid_confirms(*evidence, uid),
{
    match evidence {
        Evidence::Present { value, source } => match source {
            EvidenceSource::SelfAsserted => false,
            _ => *value == uid,
        },
        _ => false,
    }
}

/// Reconcile a peer's kernel-reported effective uid against the real and
/// effective uid independently observed for the same pid. Matching either
/// one is consistent (a setuid peer has real != effective); a
/// self-asserted observation never confirms anything.
pub fn classify_consistency(
    peer_effective_uid: u32,
    observed_real_uid: &Evidence<u32>,
    observed_effective_uid: &Evidence<u32>,
) -> (c: PeerConsistency)
    ensures
        c == spec_classify(peer_effective_uid, *observed_real_uid, *observed_effective_uid),
{
    if confirms(observed_real_uid, peer_effective_uid) || confirms(
        observed_effective_uid,
        peer_effective_uid,
    ) {
        return PeerConsistency::Consistent;
    }
    match (observed_real_uid, observed_effective_uid) {
        (Evidence::Missing { reason }, Evidence::Missing { .. }) => {
            return PeerConsistency::Indeterminate { reason: reason.clone() };
        },
        _ => {},
    }
    PeerConsistency::CredentialDivergence {
        peer_effective_uid,
        observed_real_uid: observed_real_uid.duplicate(),
        observed_effective_uid: observed_effective_uid.duplicate(),
    }
}

/// A connected peer's credential, what was independently observed about
/// it, and whether the two agree.
#[derive(Debug, Clone, PartialEq, Eq)]
pub struct PeerContext {
    credential: PeerCredential,
    consistency: PeerConsistency,
    observed: ExecutionContext,
}

impl PeerContext {
    pub closed spec fn spec_credential(&self) -> PeerCredential {
        self.credential
    }

    pub closed spec fn spec_consistency(&self) -> PeerConsistency {
        self.consistency
    }

    pub closed spec fn spec_observed(&self) -> ExecutionContext {
        self.observed
    }

    /// Build a context from a kernel credential and independent
    /// observation, deriving the verdict with [`classify_consistency`].
    pub fn from_kernel_observation(
        credential: PeerCredential,
        observed: ExecutionContext,
        observed_real_uid: &Evidence<u32>,
        observed_effective_uid: &Evidence<u32>,
    ) -> (p: Self)
        ensures
            p.spec_credential() == credential,
            p.spec_observed() == observed,
            p.spec_consistency() == spec_classify(
                credential.spec_effective_uid(),
                *observed_real_uid,
                *observed_effective_uid,
            ),
    {
        let consistency = classify_consistency(
            credential.effective_uid,
            observed_real_uid,
            observed_effective_uid,
        );
        PeerContext { credential, consistency, observed }
    }

    /// Build a context for a peer the kernel could not map to a real pid.
    pub fn peer_unmapped(credential: PeerCredential, observed: ExecutionContext) -> (p: Self)
        ensures
            p.spec_credential() == credential,
            p.spec_observed() == observed,
            p.spec_consistency() == PeerConsistency::PeerUnmapped,
    {
        PeerContext { credential, consistency: PeerConsistency::PeerUnmapped, observed }
    }

    /// An arbitrary context, for test doubles.
    pub fn new(
        credential: PeerCredential,
        consistency: PeerConsistency,
        observed: ExecutionContext,
    ) -> (p: Self)
        ensures
            p.spec_credential() == credential,
            p.spec_observed() == observed,
            p.spec_consistency() == consistency,
    {
        Self::for_test(credential, consistency, observed)
    }

    /// An arbitrary context, for test doubles.
    pub fn for_test(
        credential: PeerCredential,
        consistency: PeerConsistency,
        observed: ExecutionContext,
    ) -> (p: Self)
        ensures
            p.spec_credential() == credential,
            p.spec_observed() == observed,
            p.spec_consistency() == consistency,
    {
        PeerContext { credential, consistency, observed }
    }

    pub fn credential(&self) -> (c: &PeerCredential)
        ensures
            *c == self.spec_credential(),
    {
        &self.credential
    }

    pub fn consistency(&self) -> (c: &PeerConsistency)
        ensures
            *c == self.spec_consistency(),
    {
        &self.consistency
    }

    /// What was observed, unmodified, whatever the verdict.
    pub fn observed(&self) -> (o: &ExecutionContext)
        ensures
            *o == self.spec_observed(),
    {
        &self.observed
    }

    /// The observed context, but only when the verdict is `Consistent` —
    /// the fail-closed gate before treating it as authorization evidence.
    pub fn authorizable(&self) -> (o: Option<&ExecutionContext>)
        ensures
            self.spec_consistency() is Consistent ==> o == Some(&self.spec_observed()),
            !(self.spec_consistency() is Consistent) ==> o is None,
    {
        match self.consistency {
            PeerConsistency::Consistent => Some(&self.observed),
            _ => None,
        }
    }
}

/// Why a platform collector could not derive a peer's credential.
#[derive(Debug, Clone, PartialEq, Eq)]
pub enum PeerCredentialError {
    Io { reason: String },
    UnsupportedPlatform,
}

impl PeerCredentialError {
    /// The human-readable message for this error.
    pub fn message(&self) -> (s: String)
        ensures
            self is Io ==> s@ == "failed to read peer socket credential: "@ + self->reason@,
            self is UnsupportedPlatform ==> s@
                == "peer credential derivation is not supported on this platform"@,
    {
        match self {
            PeerCredentialError::Io { reason } => {
                let mut s = crate::text::string_of("failed to read peer socket credential: ");
                crate::text::push_str(&mut s, reason.as_str());
                s
            },
            PeerCredentialError::UnsupportedPlatform => crate::text::string_of(
                "peer credential derivation is not supported on this platform",
            ),
        }
    }
}

/// A self-asserted uid observation never makes a peer consistent on its
/// own: with the other observation not confirming, the verdict is never
/// `Consistent`.
pub proof fn law_self_asserted_uid_never_confirms(
    peer_effective_uid: u32,
    value: u32,
    other: Evidence<u32>,
)
    requires
        !uid_confirms(other, peer_effective_uid),
    ensures
        !(spec_classify(
            peer_effective_uid,
            Evidence::Present { value, source: EvidenceSource::SelfAsserted },
            other,
        ) is Consistent),
        !(spec_classify(
            peer_effective_uid,
            other,
            Evidence::Present { value, source: EvidenceSource::SelfAsserted },
        ) is Consistent),
{
}


/// The pid a socket peer query reported, when it names a real process:
/// zero or negative means the kernel could not map the peer.
pub fn mapped_peer_pid(raw: i32) -> (p: Option<u32>)
    ensures
        raw <= 0 ==> p is None,
        raw > 0 ==> p == Some(raw as u32),
{
    if raw <= 0 {
        None
    } else {
        Some(raw as u32)
    }
}

/// The effective uid and gid a `LOCAL_PEERCRED` reply names: the reply's
/// structure version must be the one the platform defines, and the
/// effective gid is the first entry of its group list.
pub fn xucred_identity(version: u32, expected_version: u32, uid: u32, groups: &[u32]) -> (r: Result<
    (u32, u32),
    PeerCredentialError,
>)
    ensures
        version != expected_version ==> (r matches Err(PeerCredentialError::Io { reason })
            && reason@ == "LOCAL_PEERCRED returned unexpected xucred version "@ + decimal(
            version as nat,
        ) + " (expected "@ + decimal(expected_version as nat) + ")"@),
        version == expected_version && groups@.len() == 0 ==> (r matches Err(
            PeerCredentialError::Io { reason },
        ) && reason@
            == "LOCAL_PEERCRED returned an empty group list; no effective gid available"@),
        version == expected_version && groups@.len() > 0 ==> r == Ok::<
            (u32, u32),
            PeerCredentialError,
        >((uid, groups@[0])),
{
    if version != expected_version {
        let mut reason = string_of("LOCAL_PEERCRED returned unexpected xucred version ");
        push_decimal(&mut reason, version as u128);
        push_str(&mut reason, " (expected ");
        push_decimal(&mut reason, expected_version as u128);
        push_str(&mut reason, ")");
        return Err(PeerCredentialError::Io { reason });
    }
    if groups.len() == 0 {
        return Err(
            PeerCredentialError::Io {
                reason: string_of(
                    "LOCAL_PEERCRED returned an empty group list; no effective gid available",
                ),
            },
        );
    }
    Ok((uid, groups[0]))
}

} // verus!
