//! Trusted compute sessions.
//!
//! A [`TrustedSession`] narrows *who may even ask* for a compute lease; it
//! never grants compute itself. Membership is proved by descent from a
//! POSIX session leader — which no unrelated process can join — using
//! freshly collected kernel evidence on every use, never a value a client
//! presents as "my session is X".
//!
//! [`membership`] is deliberately one combined check (evidence freshness,
//! key, owner uid, host, expiry and leader corroboration together), so a
//! caller can never rely on a stale lookup.

use vstd::prelude::*;

use crate::identity::{
    spec_compare_process, usable, Evidence, EvidenceSource, IdentityComparison, WorkloadIdentity,
};
use crate::lease::{sequence_step, successes, IssuerInstanceId, MonotonicTime};
use crate::resource::{
    lemma_resource_lt_asymmetric, lemma_resource_lt_transitive, resource_lt, ResourceIdentity,
    ResourceIdentityView,
};
use crate::text::{string_of, Order};
use crate::time::Duration;

verus! {

broadcast use {vstd::laws_cmp::group_laws_cmp, vstd::std_specs::btree::group_btree_axioms};

/// A correlation identifier for one established session — not a secret.
#[derive(Debug, Clone, PartialEq, Eq, PartialOrd, Ord, Hash)]
pub struct SessionId {
    pub issuer: IssuerInstanceId,
    pub sequence: u64,
}

/// An opaque, platform-collected value naming one POSIX session on this
/// host. Never by itself proof of membership.
#[derive(Debug, Clone, Copy, PartialEq, Eq, Structural, Hash)]
pub struct SessionKey(pub u64);

/// Locally resolved host identity (e.g. the node name). Only rejects
/// cross-host reuse; not a boundary against a local attacker.
#[derive(Debug, Clone, PartialEq, Eq, Hash)]
pub struct HostId(pub String);

impl View for HostId {
    type V = Seq<char>;

    open spec fn view(&self) -> Seq<char> {
        self.0@
    }
}

/// Thirty-two bytes the caller read from the OS random source when the
/// session was established: an extension seam only, never compared or
/// validated here.
#[derive(Clone, PartialEq, Eq)]
pub struct SessionNonce([u8; 32]);

#[verifier::external_type_specification]
#[verifier::external_body]
pub struct ExFormatter<'a>(core::fmt::Formatter<'a>);

#[verifier::external_type_specification]
#[verifier::external_body]
pub struct ExFmtError(core::fmt::Error);

/// `Formatter::write_str`: writes `text` to the formatter's sink. Nothing
/// is claimed of the result or of the sink.
#[verifier::external_body]
fn write_str(f: &mut core::fmt::Formatter<'_>, text: &str) -> Result<(), core::fmt::Error> {
    f.write_str(text)
}

/// A nonce is never printed: every nonce is written as the same redacted
/// text.
impl core::fmt::Debug for SessionNonce {
    fn fmt(&self, f: &mut core::fmt::Formatter<'_>) -> Result<(), core::fmt::Error> {
        write_str(f, "SessionNonce(<redacted>)")
    }
}

impl SessionNonce {
    pub closed spec fn spec_bytes(&self) -> [u8; 32] {
        self.0
    }

    pub fn from_bytes(bytes: [u8; 32]) -> (n: Self)
        ensures
            n.spec_bytes() == bytes,
    {
        SessionNonce(bytes)
    }
}

/// Whether the session leader was observed when the session was
/// established. Reject-only evidence: only a confirmed *different* process
/// in the leader's place may deny; an absent or unobservable leader never
/// does, since the establishing process is expected to exit early.
#[derive(Debug, Clone, PartialEq, Eq)]
pub enum LeaderCorroboration {
    /// The leader as observed at establishment.
    Recorded(WorkloadIdentity),
    /// No usable leader identity could be collected.
    Unobserved,
}

/// The kernel-observed anchor a session is bound to.
#[derive(Debug, Clone, PartialEq, Eq)]
pub struct LocalSessionAnchor {
    pub key: SessionKey,
    pub leader: LeaderCorroboration,
}

/// Why [`SessionScope::new`] refused a scope.
#[derive(Debug, Clone, Copy, PartialEq, Eq, Structural)]
pub struct EmptyScope;

impl EmptyScope {
    /// The human-readable description of this error.
    pub fn message(&self) -> (s: &'static str)
        ensures
            s@ == "session scope must name at least one resource"@,
    {
        "session scope must name at least one resource"
    }
}

/// Strictly increasing in [`resource_lt`] order: sorted, no repeats.
pub open spec fn resources_sorted(s: Seq<ResourceIdentityView>) -> bool {
    forall|i: int, j: int| 0 <= i < j < s.len() ==> resource_lt(#[trigger] s[i], #[trigger] s[j])
}

/// The abstract values of a list of resources.
pub open spec fn resource_views(v: Seq<ResourceIdentity>) -> Seq<ResourceIdentityView> {
    v.map_values(|r: ResourceIdentity| r@)
}

/// The non-empty set of resources a session narrows admission to, kept
/// sorted without repeats.
#[derive(Debug, Clone, PartialEq, Eq)]
pub struct SessionScope {
    resources: Vec<ResourceIdentity>,
}

impl View for SessionScope {
    type V = Seq<ResourceIdentityView>;

    closed spec fn view(&self) -> Seq<ResourceIdentityView> {
        resource_views(self.resources@)
    }
}

/// Insert `r` into the sorted, repeat-free list `v`.
fn insert_resource(v: &mut Vec<ResourceIdentity>, r: &ResourceIdentity)
    requires
        resources_sorted(resource_views(old(v)@)),
    ensures
        resources_sorted(resource_views(final(v)@)),
        resource_views(final(v)@).to_set() == resource_views(old(v)@).to_set().insert(r@),
{
    let ghost old_views = resource_views(v@);
    let mut i: usize = 0;
    while i < v.len()
        invariant
            i <= v@.len(),
            v@ == old(v)@,
            old_views == resource_views(v@),
            resources_sorted(old_views),
            forall|k: int| 0 <= k < i ==> resource_lt(#[trigger] old_views[k], r@),
        ensures
            i <= v@.len(),
            i < v@.len() ==> resource_lt(r@, old_views[i as int]),
        decreases v.len() - i,
    {
        match v[i].compare(r) {
            Order::Less => {},
            Order::Equal => {
                proof {
                    assert(old_views[i as int] == r@);
                    assert(old_views.to_set().insert(r@) =~= old_views.to_set());
                }
                return;
            },
            Order::Greater => {
                assert(old_views[i as int] == v@[i as int]@);
                break;
            },
        }
        i = i + 1;
    }
    v.insert(i, r.duplicate());
    proof {
        let new_views = resource_views(v@);
        assert(new_views =~= old_views.insert(i as int, r@));
        assert forall|a: int, b: int| 0 <= a < b < new_views.len() implies resource_lt(
            #[trigger] new_views[a],
            #[trigger] new_views[b],
        ) by {
            if b < i {
            } else if b == i {
                assert(new_views[a] == old_views[a]);
            } else if a < i {
                assert(new_views[b] == old_views[b - 1]);
                if b - 1 > i {
                    assert(resource_lt(old_views[i as int], old_views[b - 1]));
                    lemma_resource_lt_transitive(r@, old_views[i as int], old_views[b - 1]);
                }
                lemma_resource_lt_transitive(old_views[a], r@, old_views[b - 1]);
            } else if a == i {
                assert(new_views[b] == old_views[b - 1]);
                if b - 1 > i {
                    lemma_resource_lt_transitive(r@, old_views[i as int], old_views[b - 1]);
                }
            } else {
                assert(new_views[a] == old_views[a - 1]);
                assert(new_views[b] == old_views[b - 1]);
            }
        }
        assert(new_views.to_set() =~= old_views.to_set().insert(r@)) by {
            assert forall|x: ResourceIdentityView| #[trigger]
                new_views.to_set().contains(x) implies old_views.to_set().insert(r@).contains(
                x,
            ) by {
                let k = choose|k: int| 0 <= k < new_views.len() && new_views[k] == x;
                if k < i {
                    assert(old_views[k] == x);
                } else if k > i {
                    assert(old_views[k - 1] == x);
                }
            }
            assert forall|x: ResourceIdentityView| #[trigger]
                old_views.to_set().insert(r@).contains(x) implies new_views.to_set().contains(
                x,
            ) by {
                if x == r@ {
                    assert(new_views[i as int] == x);
                } else {
                    let k = choose|k: int| 0 <= k < old_views.len() && old_views[k] == x;
                    if k < i {
                        assert(new_views[k] == x);
                    } else {
                        assert(new_views[k + 1] == x);
                    }
                }
            }
        }
    }
}

impl SessionScope {
    /// A scope naming exactly the given resources, sorted with repeats
    /// removed; an empty list is refused.
    pub fn new(resources: Vec<ResourceIdentity>) -> (r: Result<Self, EmptyScope>)
        ensures
            resources@.len() == 0 ==> r == Err::<SessionScope, EmptyScope>(EmptyScope),
            resources@.len() > 0 ==> (r matches Ok(scope) && resources_sorted(scope@)
                && scope@.to_set() == resource_views(resources@).to_set()),
    {
        if resources.len() == 0 {
            return Err(EmptyScope);
        }
        let mut sorted: Vec<ResourceIdentity> = Vec::new();
        let mut i: usize = 0;
        while i < resources.len()
            invariant
                i <= resources@.len(),
                resources_sorted(resource_views(sorted@)),
                resource_views(sorted@).to_set() == resource_views(
                    resources@.subrange(0, i as int),
                ).to_set(),
            decreases resources.len() - i,
        {
            insert_resource(&mut sorted, &resources[i]);
            proof {
                assert(resource_views(resources@.subrange(0, i + 1)) =~= resource_views(
                    resources@.subrange(0, i as int),
                ).push(resources@[i as int]@));
                resource_views(resources@.subrange(0, i as int)).lemma_push_to_set_commute(
                    resources@[i as int]@,
                );
            }
            i = i + 1;
        }
        proof {
            assert(resources@.subrange(0, resources@.len() as int) =~= resources@);
        }
        proof {
            assert(resource_views(resources@)[0] == resources@[0]@);
            assert(resource_views(resources@).to_set().contains(resources@[0]@));
        }
        Ok(SessionScope { resources: sorted })
    }

    /// The resources, in sorted order without repeats.
    pub fn resources(&self) -> (v: &Vec<ResourceIdentity>)
        ensures
            resource_views(v@) == self@,
    {
        &self.resources
    }

    /// Whether `resource` is in this scope.
    pub fn contains(&self, resource: &ResourceIdentity) -> (b: bool)
        ensures
            b == self@.contains(resource@),
    {
        let mut i: usize = 0;
        while i < self.resources.len()
            invariant
                i <= self.resources@.len(),
                forall|k: int| 0 <= k < i ==> self@[k] != resource@,
            decreases self.resources.len() - i,
        {
            if self.resources[i].same(resource) {
                assert(self@[i as int] == resource@);
                return true;
            }
            i = i + 1;
        }
        false
    }
}

/// How the session owner's intent was proven.
#[derive(Debug, Clone, Copy, PartialEq, Eq, Structural)]
pub enum IntentProof {
    /// The requester was the authorizable local peer of the request
    /// itself, with no further hardware-backed step.
    LocalPeerPresence,
}

/// What kind of kernel-backed membership evidence a session relies on.
#[derive(Debug, Clone, Copy, PartialEq, Eq, Structural)]
pub enum SessionAssurance {
    /// Membership derives solely from POSIX session descent.
    LocalKernelSession,
}

/// One established trusted session. No public constructor outside
/// [`SessionAuthority::establish`].
#[derive(Debug, Clone, PartialEq, Eq)]
pub struct TrustedSession {
    id: SessionId,
    owner_uid: u32,
    anchor: LocalSessionAnchor,
    scope: SessionScope,
    intent: IntentProof,
    assurance: SessionAssurance,
    host: HostId,
    nonce: SessionNonce,
    established_at: MonotonicTime,
    expires_at: MonotonicTime,
}

impl TrustedSession {
    pub closed spec fn spec_id(&self) -> SessionId {
        self.id
    }

    pub closed spec fn spec_owner_uid(&self) -> u32 {
        self.owner_uid
    }

    pub closed spec fn spec_anchor(&self) -> LocalSessionAnchor {
        self.anchor
    }

    pub closed spec fn spec_scope(&self) -> SessionScope {
        self.scope
    }

    pub closed spec fn spec_intent(&self) -> IntentProof {
        self.intent
    }

    pub closed spec fn spec_assurance(&self) -> SessionAssurance {
        self.assurance
    }

    pub closed spec fn spec_host(&self) -> HostId {
        self.host
    }

    pub closed spec fn spec_nonce(&self) -> SessionNonce {
        self.nonce
    }

    pub closed spec fn spec_established_at(&self) -> MonotonicTime {
        self.established_at
    }

    pub closed spec fn spec_expires_at(&self) -> MonotonicTime {
        self.expires_at
    }

    pub fn id(&self) -> (r: &SessionId)
        ensures
            *r == self.spec_id(),
    {
        &self.id
    }

    pub fn owner_uid(&self) -> (r: u32)
        ensures
            r == self.spec_owner_uid(),
    {
        self.owner_uid
    }

    pub fn anchor(&self) -> (r: &LocalSessionAnchor)
        ensures
            *r == self.spec_anchor(),
    {
        &self.anchor
    }

    pub fn host(&self) -> (r: &HostId)
        ensures
            *r == self.spec_host(),
    {
        &self.host
    }

    pub fn scope(&self) -> (r: &SessionScope)
        ensures
            *r == self.spec_scope(),
    {
        &self.scope
    }

    pub fn intent(&self) -> (r: IntentProof)
        ensures
            r == self.spec_intent(),
    {
        self.intent
    }

    pub fn assurance(&self) -> (r: SessionAssurance)
        ensures
            r == self.spec_assurance(),
    {
        self.assurance
    }

    pub fn established_at(&self) -> (r: MonotonicTime)
        ensures
            r == self.spec_established_at(),
    {
        self.established_at
    }

    pub fn expires_at(&self) -> (r: MonotonicTime)
        ensures
            r == self.spec_expires_at(),
    {
        self.expires_at
    }
}

/// Why [`SessionAuthority::establish`] refused to establish a session.
#[derive(Debug, Clone, PartialEq, Eq)]
pub enum SessionError {
    NonPositiveTtl,
    TtlExceedsMaximum { requested: Duration, maximum: Duration },
    ExpiryOverflow,
}

impl SessionError {
    /// The human-readable description of this error.
    pub fn message(&self) -> (s: String)
        ensures
            self is NonPositiveTtl ==> s@ == "session ttl must be greater than zero"@,
            self matches SessionError::TtlExceedsMaximum { requested, maximum } ==> s@
                == "session ttl "@ + crate::time::debug_text(requested@)
                + " exceeds authority maximum "@ + crate::time::debug_text(maximum@),
            self is ExpiryOverflow ==> s@
                == "session expiry would overflow the monotonic clock range"@,
    {
        match self {
            SessionError::NonPositiveTtl => crate::text::string_of(
                "session ttl must be greater than zero",
            ),
            SessionError::TtlExceedsMaximum { requested, maximum } => {
                let mut s = crate::text::string_of("session ttl ");
                requested.push_debug(&mut s);
                crate::text::push_str(&mut s, " exceeds authority maximum ");
                maximum.push_debug(&mut s);
                s
            },
            SessionError::ExpiryOverflow => crate::text::string_of(
                "session expiry would overflow the monotonic clock range",
            ),
        }
    }
}

/// The result of [`SessionAuthority::terminate`].
#[derive(Debug, Clone, Copy, PartialEq, Eq, Structural)]
pub enum SessionTerminationOutcome {
    Terminated,
    AlreadyTerminated,
    NotIssued,
    ForeignIssuer,
}

/// The administrative validity of a session (issuer, termination, host,
/// anchor recycling, expiry) — not a substitute for [`membership`].
#[derive(Debug, Clone, PartialEq, Eq)]
pub enum SessionValidity {
    Valid { remaining: Duration },
    /// Established by another authority instance (e.g. before a restart).
    ForeignIssuer { issued_by: IssuerInstanceId },
    Terminated,
    /// A different live process now observably occupies the recorded
    /// leader's place.
    AnchorRecycled,
    /// Freshly observed host evidence names another host.
    HostMismatch,
    Expired { expired_at: MonotonicTime },
}

/// Why [`membership`] reports `NotMember`.
#[derive(Debug, Clone, PartialEq, Eq, Structural)]
pub enum NotMemberReason {
    KeyMismatch,
    OwnerUidMismatch,
    HostMismatch,
    Expired { expired_at: MonotonicTime },
    AnchorRecycled,
}

/// The result of [`membership`]. `Indeterminate` must be treated like
/// `NotMember`, but stays distinct for the audit trail.
#[allow(inconsistent_fields)]
#[derive(Debug, Clone, PartialEq, Eq)]
pub enum MembershipVerdict {
    Member,
    NotMember { reason: NotMemberReason },
    Indeterminate { reason: String },
}

/// The abstract value of a [`MembershipVerdict`].
pub enum MembershipView {
    Member,
    NotMember(NotMemberReason),
    Indeterminate(Seq<char>),
}

impl View for MembershipVerdict {
    type V = MembershipView;

    open spec fn view(&self) -> MembershipView {
        match self {
            MembershipVerdict::Member => MembershipView::Member,
            MembershipVerdict::NotMember { reason } => MembershipView::NotMember(*reason),
            MembershipVerdict::Indeterminate { reason } => MembershipView::Indeterminate(reason@),
        }
    }
}

/// Why `evidence` cannot be used for membership, if it cannot: the given
/// reason for self-asserted or unsupported evidence, the recorded reason
/// for missing evidence; `None` when it is present and not self-asserted.
pub open spec fn evidence_gap<T>(
    evidence: Evidence<T>,
    self_asserted_reason: Seq<char>,
    unsupported_reason: Seq<char>,
) -> Option<Seq<char>> {
    match evidence {
        Evidence::Present { source, .. } => if source == EvidenceSource::SelfAsserted {
            Some(self_asserted_reason)
        } else {
            None
        },
        Evidence::Missing { reason } => Some(reason@),
        Evidence::Unsupported => Some(unsupported_reason),
    }
}

/// The usable value of one piece of evidence, or the `Indeterminate`
/// verdict its state calls for. Makes no decision of its own.
fn require_present<'a, T>(
    evidence: &'a Evidence<T>,
    self_asserted_reason: &str,
    unsupported_reason: &str,
) -> (r: Result<&'a T, MembershipVerdict>)
    ensures
        evidence_gap(*evidence, self_asserted_reason@, unsupported_reason@) is None ==> r == Ok::<
            &T,
            MembershipVerdict,
        >(&evidence->value),
        evidence_gap(*evidence, self_asserted_reason@, unsupported_reason@) matches Some(gap) ==> (
        r matches Err(v) && v@ == MembershipView::Indeterminate(gap)),
{
    match evidence {
        Evidence::Present { value, source } => match source {
            EvidenceSource::SelfAsserted => Err(
                MembershipVerdict::Indeterminate { reason: string_of(self_asserted_reason) },
            ),
            _ => Ok(value),
        },
        Evidence::Missing { reason } => Err(
            MembershipVerdict::Indeterminate { reason: reason.clone() },
        ),
        Evidence::Unsupported => Err(
            MembershipVerdict::Indeterminate { reason: string_of(unsupported_reason) },
        ),
    }
}

/// What leader corroboration says: deny only on a confirmed different
/// process in the recorded leader's place.
pub open spec fn leader_recycled(leader: LeaderCorroboration, observed: WorkloadIdentity) -> bool {
    leader matches LeaderCorroboration::Recorded(recorded) && spec_compare_process(
        recorded,
        observed,
    ) == IdentityComparison::Different
}

/// The verdict [`membership`] gives, checking in order: session-key
/// evidence and equality, owner-uid evidence and equality, host evidence
/// and equality, expiry, then leader corroboration.
pub open spec fn spec_membership(
    session: TrustedSession,
    peer_uid: Evidence<u32>,
    peer_key: Evidence<SessionKey>,
    observed_host: Evidence<HostId>,
    observed_leader: WorkloadIdentity,
    now: MonotonicTime,
) -> MembershipView {
    match evidence_gap(
        peer_key,
        "peer session-key evidence was self-asserted"@,
        "session-key collection is unsupported on this platform"@,
    ) {
        Some(gap) => MembershipView::Indeterminate(gap),
        None => if peer_key->value != session.spec_anchor().key {
            MembershipView::NotMember(NotMemberReason::KeyMismatch)
        } else {
            match evidence_gap(
                peer_uid,
                "peer uid evidence was self-asserted"@,
                "uid collection is unsupported on this platform"@,
            ) {
                Some(gap) => MembershipView::Indeterminate(gap),
                None => if peer_uid->value != session.spec_owner_uid() {
                    MembershipView::NotMember(NotMemberReason::OwnerUidMismatch)
                } else {
                    match evidence_gap(
                        observed_host,
                        "peer host evidence was self-asserted"@,
                        "host collection is unsupported on this platform"@,
                    ) {
                        Some(gap) => MembershipView::Indeterminate(gap),
                        None => if observed_host->value@ != session.spec_host()@ {
                            MembershipView::NotMember(NotMemberReason::HostMismatch)
                        } else if now@ >= session.spec_expires_at()@ {
                            MembershipView::NotMember(
                                NotMemberReason::Expired { expired_at: session.spec_expires_at() },
                            )
                        } else if leader_recycled(session.spec_anchor().leader, observed_leader) {
                            MembershipView::NotMember(NotMemberReason::AnchorRecycled)
                        } else {
                            MembershipView::Member
                        },
                    }
                },
            }
        },
    }
}

/// Whether the requesting peer — described by freshly collected uid,
/// session-key and host evidence — is a current member of `session` at
/// `now`, with `observed_leader` freshly observed in the recorded leader's
/// place. Leader corroboration can only deny, never grant.
pub fn membership(
    session: &TrustedSession,
    peer_uid: &Evidence<u32>,
    peer_key: &Evidence<SessionKey>,
    observed_host: &Evidence<HostId>,
    observed_leader: &WorkloadIdentity,
    now: MonotonicTime,
) -> (v: MembershipVerdict)
    ensures
        v@ == spec_membership(*session, *peer_uid, *peer_key, *observed_host, *observed_leader, now),
{
    proof {
        reveal_strlit("peer session-key evidence was self-asserted");
        reveal_strlit("session-key collection is unsupported on this platform");
        reveal_strlit("peer uid evidence was self-asserted");
        reveal_strlit("uid collection is unsupported on this platform");
        reveal_strlit("peer host evidence was self-asserted");
        reveal_strlit("host collection is unsupported on this platform");
    }
    let key = match require_present(
        peer_key,
        "peer session-key evidence was self-asserted",
        "session-key collection is unsupported on this platform",
    ) {
        Ok(key) => key,
        Err(verdict) => {
            return verdict;
        },
    };
    if *key != session.anchor.key {
        return MembershipVerdict::NotMember { reason: NotMemberReason::KeyMismatch };
    }
    let uid = match require_present(
        peer_uid,
        "peer uid evidence was self-asserted",
        "uid collection is unsupported on this platform",
    ) {
        Ok(uid) => uid,
        Err(verdict) => {
            return verdict;
        },
    };
    if *uid != session.owner_uid {
        return MembershipVerdict::NotMember { reason: NotMemberReason::OwnerUidMismatch };
    }
    let host = match require_present(
        observed_host,
        "peer host evidence was self-asserted",
        "host collection is unsupported on this platform",
    ) {
        Ok(host) => host,
        Err(verdict) => {
            return verdict;
        },
    };
    if host.0 != session.host.0 {
        return MembershipVerdict::NotMember { reason: NotMemberReason::HostMismatch };
    }
    if now.as_nanos() >= session.expires_at.as_nanos() {
        return MembershipVerdict::NotMember {
            reason: NotMemberReason::Expired { expired_at: session.expires_at },
        };
    }
    match &session.anchor.leader {
        LeaderCorroboration::Recorded(recorded) => match recorded.compare_process(
            observed_leader,
        ) {
            IdentityComparison::Different => MembershipVerdict::NotMember {
                reason: NotMemberReason::AnchorRecycled,
            },
            _ => MembershipVerdict::Member,
        },
        LeaderCorroboration::Unobserved => MembershipVerdict::Member,
    }
}

/// The abstract state of a [`SessionAuthority`].
pub struct SessionAuthorityView {
    pub instance: Seq<char>,
    pub max_ttl: nat,
    pub next_sequence: u64,
    pub terminated: Set<u64>,
}

/// Establishes and terminates sessions for one live process instance.
/// There is no renew or extend: a new session is always a fresh act of
/// intent.
pub struct SessionAuthority {
    instance: IssuerInstanceId,
    max_ttl: Duration,
    next_sequence: u64,
    terminated: std::collections::BTreeSet<u64>,
}

impl View for SessionAuthority {
    type V = SessionAuthorityView;

    closed spec fn view(&self) -> SessionAuthorityView {
        SessionAuthorityView {
            instance: self.instance@,
            max_ttl: self.max_ttl@,
            next_sequence: self.next_sequence,
            terminated: self.terminated@,
        }
    }
}

/// `v` is the verdict [`SessionAuthority::validate`] gives: issuer, then
/// termination, then host (only usable host evidence can deny), then
/// leader recycling, then expiry.
pub open spec fn session_validity_fits(
    v: SessionValidity,
    authority: SessionAuthorityView,
    session: TrustedSession,
    observed_host: Evidence<HostId>,
    observed_leader: WorkloadIdentity,
    now: MonotonicTime,
) -> bool {
    if session.spec_id().issuer@ != authority.instance {
        v == (SessionValidity::ForeignIssuer { issued_by: session.spec_id().issuer })
    } else if authority.terminated.contains(session.spec_id().sequence) {
        v == SessionValidity::Terminated
    } else if evidence_gap(observed_host, Seq::empty(), Seq::empty()) is None
        && observed_host->value@ != session.spec_host()@ {
        v == SessionValidity::HostMismatch
    } else if leader_recycled(session.spec_anchor().leader, observed_leader) {
        v == SessionValidity::AnchorRecycled
    } else if now@ >= session.spec_expires_at()@ {
        v == (SessionValidity::Expired { expired_at: session.spec_expires_at() })
    } else {
        v matches SessionValidity::Valid { remaining } && remaining@ == session.spec_expires_at()@
            - now@
    }
}

/// The sequence number a session result was granted, if it is a session.
pub open spec fn granted_session_sequence(r: Result<TrustedSession, SessionError>) -> Option<u64> {
    match r {
        Ok(session) => Some(session.spec_id().sequence),
        Err(_) => None,
    }
}

impl SessionAuthority {
    /// A fresh authority: nothing established, nothing terminated.
    pub fn new(instance: IssuerInstanceId, max_ttl: Duration) -> (a: Self)
        ensures
            a@.instance == instance@,
            a@.max_ttl == max_ttl@,
            a@.next_sequence == 0,
            a@.terminated == Set::<u64>::empty(),
    {
        SessionAuthority {
            instance,
            max_ttl,
            next_sequence: 0,
            terminated: std::collections::BTreeSet::new(),
        }
    }

    pub fn instance(&self) -> (i: &IssuerInstanceId)
        ensures
            i@ == self@.instance,
    {
        &self.instance
    }

    /// Establish a new session bound to `anchor`, scoped to `scope`, for
    /// `owner_uid` on `host`, lasting `ttl` from `now`. Refusals, in
    /// order: a zero `ttl`; a `ttl` above this authority's maximum; an
    /// expiry beyond the clock range. A refusal changes nothing. Policy is
    /// never consulted here.
    pub fn establish(
        &mut self,
        owner_uid: u32,
        anchor: LocalSessionAnchor,
        scope: SessionScope,
        intent: IntentProof,
        assurance: SessionAssurance,
        host: HostId,
        nonce: SessionNonce,
        now: MonotonicTime,
        ttl: Duration,
    ) -> (r: Result<TrustedSession, SessionError>)
        requires
            old(self)@.next_sequence < u64::MAX,
        ensures
            ttl@ == 0 ==> r == Err::<TrustedSession, SessionError>(SessionError::NonPositiveTtl),
            ttl@ != 0 && ttl@ > old(self)@.max_ttl ==> (r matches Err(
                SessionError::TtlExceedsMaximum { requested, maximum },
            ) && requested@ == ttl@ && maximum@ == old(self)@.max_ttl),
            ttl@ != 0 && ttl@ <= old(self)@.max_ttl && now@ + ttl@ > u64::MAX ==> r == Err::<
                TrustedSession,
                SessionError,
            >(SessionError::ExpiryOverflow),
            r is Ok <==> (ttl@ != 0 && ttl@ <= old(self)@.max_ttl && now@ + ttl@ <= u64::MAX),
            r is Err ==> final(self)@ == old(self)@,
            sequence_step(
                old(self)@.next_sequence,
                granted_session_sequence(r),
                final(self)@.next_sequence,
            ),
            r matches Ok(s) ==> {
                &&& s.spec_id().issuer@ == old(self)@.instance
                &&& s.spec_id().sequence == old(self)@.next_sequence
                &&& s.spec_owner_uid() == owner_uid
                &&& s.spec_anchor() == anchor
                &&& s.spec_scope() == scope
                &&& s.spec_intent() == intent
                &&& s.spec_assurance() == assurance
                &&& s.spec_host() == host
                &&& s.spec_nonce() == nonce
                &&& s.spec_established_at() == now
                &&& s.spec_expires_at()@ == now@ + ttl@
                &&& final(self)@.next_sequence == old(self)@.next_sequence + 1
                &&& final(self)@.instance == old(self)@.instance
                &&& final(self)@.max_ttl == old(self)@.max_ttl
                &&& final(self)@.terminated == old(self)@.terminated
            },
    {
        if ttl.is_zero() {
            return Err(SessionError::NonPositiveTtl);
        }
        if ttl.as_nanos() > self.max_ttl.as_nanos() {
            return Err(SessionError::TtlExceedsMaximum { requested: ttl, maximum: self.max_ttl });
        }
        let expires_at = match now.checked_add(ttl) {
            Some(t) => t,
            None => {
                return Err(SessionError::ExpiryOverflow);
            },
        };
        let id = SessionId { issuer: self.instance.duplicate(), sequence: self.next_sequence };
        self.next_sequence = self.next_sequence + 1;
        Ok(
            TrustedSession {
                id,
                owner_uid,
                anchor,
                scope,
                intent,
                assurance,
                host,
                nonce,
                established_at: now,
                expires_at,
            },
        )
    }

    /// Terminate the session identified by `id`, if this authority
    /// instance established it.
    pub fn terminate(&mut self, id: &SessionId) -> (o: SessionTerminationOutcome)
        ensures
            id.issuer@ != old(self)@.instance ==> o == SessionTerminationOutcome::ForeignIssuer,
            id.issuer@ == old(self)@.instance && id.sequence >= old(self)@.next_sequence ==> o
                == SessionTerminationOutcome::NotIssued,
            id.issuer@ == old(self)@.instance && id.sequence < old(self)@.next_sequence ==> {
                &&& old(self)@.terminated.contains(id.sequence) ==> o
                    == SessionTerminationOutcome::AlreadyTerminated
                &&& !old(self)@.terminated.contains(id.sequence) ==> o
                    == SessionTerminationOutcome::Terminated
                &&& final(self)@.terminated == old(self)@.terminated.insert(id.sequence)
            },
            !(id.issuer@ == old(self)@.instance && id.sequence < old(self)@.next_sequence)
                ==> final(self)@ == old(self)@,
            final(self)@.instance == old(self)@.instance,
            final(self)@.max_ttl == old(self)@.max_ttl,
            final(self)@.next_sequence == old(self)@.next_sequence,
    {
        if !id.issuer.same(&self.instance) {
            return SessionTerminationOutcome::ForeignIssuer;
        }
        if id.sequence >= self.next_sequence {
            return SessionTerminationOutcome::NotIssued;
        }
        if !self.terminated.insert(id.sequence) {
            return SessionTerminationOutcome::AlreadyTerminated;
        }
        SessionTerminationOutcome::Terminated
    }

    /// Administrative validity of `session`, re-observing the host and the
    /// leader's place: issuer, termination, host, anchor recycling, then
    /// expiry. An unobservable leader or missing host evidence never makes
    /// a session invalid.
    pub fn validate(
        &self,
        session: &TrustedSession,
        observed_host: &Evidence<HostId>,
        observed_leader: &WorkloadIdentity,
        now: MonotonicTime,
    ) -> (v: SessionValidity)
        ensures
            session_validity_fits(v, self@, *session, *observed_host, *observed_leader, now),
    {
        if !session.id.issuer.same(&self.instance) {
            return SessionValidity::ForeignIssuer { issued_by: session.id.issuer.duplicate() };
        }
        if self.terminated.contains(&session.id.sequence) {
            return SessionValidity::Terminated;
        }
        match observed_host {
            Evidence::Present { value, source } => match source {
                EvidenceSource::SelfAsserted => {},
                _ => {
                    if value.0 != session.host.0 {
                        return SessionValidity::HostMismatch;
                    }
                },
            },
            _ => {},
        }
        match &session.anchor.leader {
            LeaderCorroboration::Recorded(recorded) => match recorded.compare_process(
                observed_leader,
            ) {
                IdentityComparison::Different => {
                    return SessionValidity::AnchorRecycled;
                },
                _ => {},
            },
            LeaderCorroboration::Unobserved => {},
        }
        if now.as_nanos() >= session.expires_at.as_nanos() {
            return SessionValidity::Expired { expired_at: session.expires_at };
        }
        SessionValidity::Valid { remaining: session.expires_at.saturating_duration_since(now) }
    }
}

/// Membership is granted exactly when the peer's session key, uid and
/// host are each present, not self-asserted and equal to what the session
/// recorded, the session has not expired, and no different process is
/// confirmed in the recorded leader's place. Copying a session's metadata
/// without the kernel evidence never makes a member.
pub proof fn law_member_iff_confirmed_evidence(
    session: TrustedSession,
    peer_uid: Evidence<u32>,
    peer_key: Evidence<SessionKey>,
    observed_host: Evidence<HostId>,
    observed_leader: WorkloadIdentity,
    now: MonotonicTime,
)
    ensures
        spec_membership(session, peer_uid, peer_key, observed_host, observed_leader, now)
            is Member <==> {
            &&& usable(peer_key)
            &&& peer_key->value == session.spec_anchor().key
            &&& usable(peer_uid)
            &&& peer_uid->value == session.spec_owner_uid()
            &&& usable(observed_host)
            &&& observed_host->value@ == session.spec_host()@
            &&& now@ < session.spec_expires_at()@
            &&& !leader_recycled(session.spec_anchor().leader, observed_leader)
        },
{
}

/// Leader corroboration only ever denies on a confirmed contradiction:
/// any two observations of the leader's place that do not confirm a
/// different process give the same membership verdict, and an observation
/// without a start token (the leader has exited) never confirms one.
pub proof fn law_absent_leader_never_denies(
    session: TrustedSession,
    peer_uid: Evidence<u32>,
    peer_key: Evidence<SessionKey>,
    observed_host: Evidence<HostId>,
    first: WorkloadIdentity,
    second: WorkloadIdentity,
    now: MonotonicTime,
)
    requires
        !leader_recycled(session.spec_anchor().leader, first),
        !leader_recycled(session.spec_anchor().leader, second),
    ensures
        spec_membership(session, peer_uid, peer_key, observed_host, first, now) == spec_membership(
            session,
            peer_uid,
            peer_key,
            observed_host,
            second,
            now,
        ),
        !(first.process_start is Present) ==> !leader_recycled(session.spec_anchor().leader, first),
{
}

/// Once a membership check reports the session expired, every later
/// instant reports the same, whatever the evidence is otherwise.
pub proof fn law_membership_expiry_is_irreversible(
    session: TrustedSession,
    peer_uid: Evidence<u32>,
    peer_key: Evidence<SessionKey>,
    observed_host: Evidence<HostId>,
    observed_leader: WorkloadIdentity,
    earlier: MonotonicTime,
    later: MonotonicTime,
)
    requires
        earlier@ <= later@,
        spec_membership(session, peer_uid, peer_key, observed_host, observed_leader, earlier)
            == MembershipView::NotMember(
            NotMemberReason::Expired { expired_at: session.spec_expires_at() },
        ),
    ensures
        spec_membership(session, peer_uid, peer_key, observed_host, observed_leader, later)
            == MembershipView::NotMember(
            NotMemberReason::Expired { expired_at: session.spec_expires_at() },
        ),
{
}

/// A terminated session never validates again, whatever is observed and
/// whenever.
pub proof fn law_terminated_session_never_validates(
    authority: SessionAuthorityView,
    session: TrustedSession,
    observed_host: Evidence<HostId>,
    observed_leader: WorkloadIdentity,
    now: MonotonicTime,
    v: SessionValidity,
)
    requires
        session.spec_id().issuer@ == authority.instance,
        authority.terminated.contains(session.spec_id().sequence),
        session_validity_fits(v, authority, session, observed_host, observed_leader, now),
    ensures
        v == SessionValidity::Terminated,
{
}

/// After a restart (a new authority instance) every earlier session is
/// foreign, never valid.
pub proof fn law_foreign_session_never_validates(
    authority: SessionAuthorityView,
    session: TrustedSession,
    observed_host: Evidence<HostId>,
    observed_leader: WorkloadIdentity,
    now: MonotonicTime,
    v: SessionValidity,
)
    requires
        session.spec_id().issuer@ != authority.instance,
        session_validity_fits(v, authority, session, observed_host, observed_leader, now),
    ensures
        v == (SessionValidity::ForeignIssuer { issued_by: session.spec_id().issuer }),
{
}


/// The n-th successful establishment of a fresh authority carries
/// sequence number n (counting from zero), whatever refusals came between;
/// so no two sessions of one authority share an id. `counters[i]` is the
/// authority's counter before the i-th call and `granted[i]` what that
/// call granted, as [`SessionAuthority::establish`] states it through
/// [`sequence_step`]; [`SessionAuthority::new`] starts the counter at zero.
pub proof fn law_nth_establish_gets_sequence_n(counters: Seq<u64>, granted: Seq<Option<u64>>)
    requires
        counters.len() == granted.len() + 1,
        counters[0] == 0,
        forall|i: int|
            0 <= i < granted.len() ==> sequence_step(
                #[trigger] counters[i],
                granted[i],
                counters[i + 1],
            ),
    ensures
        forall|i: int|
            0 <= i < granted.len() && #[trigger] granted[i] is Some ==> granted[i]->0
                == successes(granted.take(i)),
        forall|i: int, j: int|
            0 <= i < j < granted.len() && #[trigger] granted[i] is Some
                && #[trigger] granted[j] is Some ==> granted[i]->0 != granted[j]->0,
{
    crate::lease::law_nth_issue_gets_sequence_n(counters, granted);
}

} // verus!
