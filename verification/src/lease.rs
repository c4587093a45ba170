//! Scoped, short-lived compute lease.
//!
//! A [`ComputeLease`] is what an ALLOW decision becomes — never a
//! permanent privilege. The only way to obtain one is
//! [`LeaseIssuer::issue`], which re-evaluates the policy over the exact
//! provenance record the lease is bound to.
//!
//! ```text
//! Active --(now >= expires_at)--> Expired   irreversible
//! Active --(LeaseIssuer::revoke)--> Revoked irreversible, issuer-only
//! Active --(narrow_expiry)--> Active'       expires_at' <= expires_at
//! ```
//!
//! Time is always injected: [`MonotonicTime`] is a plain nanosecond count
//! meaningful only against readings of the same issuer instance.
//! Revocation lives with the issuer, never on the lease value.

use vstd::prelude::*;

use crate::identity::{spec_compare_executable, spec_compare_process, usable, IdentityComparison};
use crate::policy::{
    is_evaluation, lemma_reason_fits_by_view, reason_fits, spec_effect, DecisionReason, Effect, PolicyDecision,
    PolicyProvenance, PolicySet,
};
use crate::provenance::ProvenanceRecord;
use crate::text::string_of;
use crate::time::Duration;

verus! {

broadcast use {vstd::laws_cmp::group_laws_cmp, vstd::std_specs::btree::group_btree_axioms};

/// A monotonic instant, in nanoseconds since an epoch chosen by one
/// issuer instance. Never read from a clock inside this library.
#[derive(Debug, Clone, Copy, PartialEq, Eq, Structural, PartialOrd, Ord, Hash)]
pub struct MonotonicTime(u64);

impl View for MonotonicTime {
    type V = u64;

    closed spec fn view(&self) -> u64 {
        self.0
    }
}

impl MonotonicTime {
    pub fn from_nanos(nanos: u64) -> (t: Self)
        ensures
            t@ == nanos,
    {
        MonotonicTime(nanos)
    }

    pub fn as_nanos(self) -> (n: u64)
        ensures
            n == self@,
    {
        self.0
    }

    /// `self + duration`, or `None` if that would overflow a `u64`
    /// nanosecond count.
    pub fn checked_add(self, duration: Duration) -> (r: Option<Self>)
        ensures
            self@ + duration@ <= u64::MAX ==> (r matches Some(t) && t@ == self@ + duration@),
            self@ + duration@ > u64::MAX ==> r is None,
    {
        let added = duration.as_nanos();
        if added > (u64::MAX - self.0) as u128 {
            None
        } else {
            Some(MonotonicTime(self.0 + added as u64))
        }
    }

    /// `self - earlier`, saturating to zero when `earlier` is not earlier.
    pub fn saturating_duration_since(self, earlier: Self) -> (d: Duration)
        ensures
            self@ >= earlier@ ==> d@ == self@ - earlier@,
            self@ < earlier@ ==> d@ == 0,
    {
        if self.0 >= earlier.0 {
            Duration::from_nanos(self.0 - earlier.0)
        } else {
            Duration::zero()
        }
    }

    /// The earlier of two instants.
    pub fn earliest(self, other: Self) -> (t: Self)
        ensures
            t@ == if self@ <= other@ {
                self@
            } else {
                other@
            },
    {
        if self.0 <= other.0 {
            self
        } else {
            other
        }
    }
}

/// Opaque tag for one live issuer instance — its restart epoch.
#[derive(Debug, Clone, PartialEq, Eq, PartialOrd, Ord, Hash)]
pub struct IssuerInstanceId(String);

impl View for IssuerInstanceId {
    type V = Seq<char>;

    closed spec fn view(&self) -> Seq<char> {
        self.0@
    }
}

impl IssuerInstanceId {
    pub fn new(tag: &str) -> (i: Self)
        ensures
            i@ == tag@,
    {
        IssuerInstanceId(string_of(tag))
    }

    pub fn as_str(&self) -> (s: &str)
        ensures
            s@ == self@,
    {
        self.0.as_str()
    }

    pub fn duplicate(&self) -> (i: Self)
        ensures
            i@ == self@,
            i == *self,
    {
        IssuerInstanceId(self.0.clone())
    }

    /// Whether two tags are equal.
    pub fn same(&self, other: &IssuerInstanceId) -> (b: bool)
        ensures
            b == (self@ == other@),
    {
        self.0 == other.0
    }
}

/// A correlation identifier for one issued lease — not a capability.
#[derive(Debug, Clone, PartialEq, Eq, PartialOrd, Ord, Hash)]
pub struct LeaseId {
    pub issuer: IssuerInstanceId,
    pub sequence: u64,
}

impl LeaseId {
    /// A copy of this id.
    pub fn duplicate(&self) -> (r: Self)
        ensures
            r == *self,
    {
        LeaseId { issuer: self.issuer.duplicate(), sequence: self.sequence }
    }
}

/// One issued authorization, bound to the exact provenance record it was
/// issued against. No public constructor outside [`LeaseIssuer::issue`].
#[derive(Debug, Clone, PartialEq, Eq)]
pub struct ComputeLease {
    id: LeaseId,
    origin: ProvenanceRecord,
    policy: PolicyProvenance,
    decision_reason: DecisionReason,
    issued_at: MonotonicTime,
    expires_at: MonotonicTime,
}

impl ComputeLease {
    pub closed spec fn spec_id(&self) -> LeaseId {
        self.id
    }

    pub closed spec fn spec_origin(&self) -> ProvenanceRecord {
        self.origin
    }

    pub closed spec fn spec_policy(&self) -> PolicyProvenance {
        self.policy
    }

    pub closed spec fn spec_decision_reason(&self) -> DecisionReason {
        self.decision_reason
    }

    pub closed spec fn spec_issued_at(&self) -> MonotonicTime {
        self.issued_at
    }

    pub closed spec fn spec_expires_at(&self) -> MonotonicTime {
        self.expires_at
    }

    pub fn id(&self) -> (r: &LeaseId)
        ensures
            *r == self.spec_id(),
    {
        &self.id
    }

    pub fn origin(&self) -> (r: &ProvenanceRecord)
        ensures
            *r == self.spec_origin(),
    {
        &self.origin
    }

    pub fn policy(&self) -> (r: &PolicyProvenance)
        ensures
            *r == self.spec_policy(),
    {
        &self.policy
    }

    pub fn decision_reason(&self) -> (r: &DecisionReason)
        ensures
            *r == self.spec_decision_reason(),
    {
        &self.decision_reason
    }

    pub fn issued_at(&self) -> (t: MonotonicTime)
        ensures
            t == self.spec_issued_at(),
    {
        self.issued_at
    }

    pub fn expires_at(&self) -> (t: MonotonicTime)
        ensures
            t == self.spec_expires_at(),
    {
        self.expires_at
    }

    /// The only lifecycle operation on a lease value: the same lease with
    /// expiry `min(expires_at, not_after)`. A later `not_after` is a
    /// no-op, never an extension.
    pub fn narrow_expiry(self, not_after: MonotonicTime) -> (l: ComputeLease)
        ensures
            l.spec_expires_at()@ == if self.spec_expires_at()@ <= not_after@ {
                self.spec_expires_at()@
            } else {
                not_after@
            },
            l.spec_expires_at()@ <= self.spec_expires_at()@,
            l.spec_id() == self.spec_id(),
            l.spec_origin() == self.spec_origin(),
            l.spec_policy() == self.spec_policy(),
            l.spec_decision_reason() == self.spec_decision_reason(),
            l.spec_issued_at() == self.spec_issued_at(),
    {
        let expires_at = self.expires_at.earliest(not_after);
        ComputeLease { expires_at, ..self }
    }
}

/// Why [`LeaseIssuer::issue`] refused to issue a lease.
#[derive(Debug, Clone, PartialEq, Eq)]
pub enum LeaseError {
    Denied { decision: PolicyDecision },
    NonPositiveTtl,
    TtlExceedsMaximum { requested: Duration, maximum: Duration },
    ExpiryOverflow,
}

impl LeaseError {
    /// The human-readable description of this error.
    pub fn message(&self) -> (s: String)
        ensures
            self is Denied ==> s@ == "policy did not allow the request"@,
            self is NonPositiveTtl ==> s@ == "lease ttl must be greater than zero"@,
            self matches LeaseError::TtlExceedsMaximum { requested, maximum } ==> s@
                == "lease ttl "@ + crate::time::debug_text(requested@) + " exceeds issuer maximum "@
                + crate::time::debug_text(maximum@),
            self is ExpiryOverflow ==> s@ == "lease expiry would overflow the monotonic clock range"@,
    {
        match self {
            LeaseError::Denied { .. } => string_of("policy did not allow the request"),
            LeaseError::NonPositiveTtl => string_of("lease ttl must be greater than zero"),
            LeaseError::TtlExceedsMaximum { requested, maximum } => {
                let mut s = string_of("lease ttl ");
                requested.push_debug(&mut s);
                crate::text::push_str(&mut s, " exceeds issuer maximum ");
                maximum.push_debug(&mut s);
                s
            },
            LeaseError::ExpiryOverflow => string_of(
                "lease expiry would overflow the monotonic clock range",
            ),
        }
    }
}

/// The result of [`LeaseIssuer::revoke`].
#[derive(Debug, Clone, Copy, PartialEq, Eq, Structural)]
pub enum RevocationOutcome {
    Revoked,
    AlreadyRevoked,
    NotIssued,
    ForeignIssuer,
}

/// The result of [`LeaseIssuer::validate`]: every reason for refusal is
/// kept distinct for the audit trail.
#[derive(Debug, Clone, PartialEq, Eq)]
pub enum LeaseValidity {
    Valid { remaining: Duration },
    /// Issued by a different issuer instance (a restart, or another
    /// issuer). Never valid.
    ForeignIssuer { issued_by: IssuerInstanceId },
    Revoked,
    ResourceMismatch,
    ActionMismatch,
    /// Pid reuse or a workload restart.
    WorkloadMismatch,
    /// Not enough evidence to tell; fails closed.
    WorkloadIndeterminate,
    /// Same pid and start token, different executable image (an in-place
    /// `execve()`).
    ExecutableMismatch,
    Expired { expired_at: MonotonicTime },
}

impl LeaseValidity {
    /// Convenience for a final allow/deny gate only.
    pub fn is_valid(&self) -> (b: bool)
        ensures
            b == (self is Valid),
    {
        match self {
            LeaseValidity::Valid { .. } => true,
            _ => false,
        }
    }
}

/// The abstract state of a [`LeaseIssuer`].
pub struct LeaseIssuerView {
    pub instance: Seq<char>,
    pub max_ttl: nat,
    pub next_sequence: u64,
    pub revoked: Set<u64>,
}

/// Issues and validates leases for one live process instance.
pub struct LeaseIssuer {
    instance: IssuerInstanceId,
    max_ttl: Duration,
    next_sequence: u64,
    revoked: std::collections::BTreeSet<u64>,
}

impl View for LeaseIssuer {
    type V = LeaseIssuerView;

    closed spec fn view(&self) -> LeaseIssuerView {
        LeaseIssuerView {
            instance: self.instance@,
            max_ttl: self.max_ttl@,
            next_sequence: self.next_sequence,
            revoked: self.revoked@,
        }
    }
}

/// The verdict `validate` must give, in its load-bearing check order:
/// issuer, revocation, resource, action, workload process, executable
/// image, then expiry. `Some(v)` names a refusal; `None` means every
/// binding check passed and only expiry remains.
pub open spec fn binding_refusal(
    issuer: LeaseIssuerView,
    lease: ComputeLease,
    presented: ProvenanceRecord,
) -> Option<LeaseValidity> {
    let origin = lease.spec_origin();
    if lease.spec_id().issuer@ != issuer.instance {
        Some(LeaseValidity::ForeignIssuer { issued_by: lease.spec_id().issuer })
    } else if issuer.revoked.contains(lease.spec_id().sequence) {
        Some(LeaseValidity::Revoked)
    } else if origin.request.resource@ != presented.request.resource@ {
        Some(LeaseValidity::ResourceMismatch)
    } else if origin.request.action != presented.request.action {
        Some(LeaseValidity::ActionMismatch)
    } else if spec_compare_process(origin.context.workload, presented.context.workload)
        == IdentityComparison::Different {
        Some(LeaseValidity::WorkloadMismatch)
    } else if spec_compare_process(origin.context.workload, presented.context.workload)
        == IdentityComparison::Indeterminate {
        Some(LeaseValidity::WorkloadIndeterminate)
    } else if spec_compare_executable(origin.context.workload, presented.context.workload)
        == IdentityComparison::Different {
        Some(LeaseValidity::ExecutableMismatch)
    } else if spec_compare_executable(origin.context.workload, presented.context.workload)
        == IdentityComparison::Indeterminate {
        Some(LeaseValidity::WorkloadIndeterminate)
    } else {
        None
    }
}

/// `v` is the verdict `validate` gives for `lease`/`presented` at `now`.
pub open spec fn validity_fits(
    v: LeaseValidity,
    issuer: LeaseIssuerView,
    lease: ComputeLease,
    presented: ProvenanceRecord,
    now: MonotonicTime,
) -> bool {
    match binding_refusal(issuer, lease, presented) {
        Some(refusal) => v == refusal,
        None => if now@ >= lease.spec_expires_at()@ {
            v == LeaseValidity::Expired { expired_at: lease.spec_expires_at() }
        } else {
            v matches LeaseValidity::Valid { remaining } && remaining@ == lease.spec_expires_at()@
                - now@
        },
    }
}

/// How one issuing call moves an issuer's sequence counter: a success is
/// granted the current sequence number and advances the counter by one; a
/// refusal leaves it where it was.
pub open spec fn sequence_step(before: u64, granted: Option<u64>, after: u64) -> bool {
    match granted {
        Some(sequence) => sequence == before && after == before + 1,
        None => after == before,
    }
}

/// The sequence number a lease result was granted, if it is a lease.
pub open spec fn granted_sequence(r: Result<ComputeLease, LeaseError>) -> Option<u64> {
    match r {
        Ok(lease) => Some(lease.spec_id().sequence),
        Err(_) => None,
    }
}

/// How many of the outcomes were successes.
pub open spec fn successes(granted: Seq<Option<u64>>) -> nat
    decreases granted.len(),
{
    if granted.len() == 0 {
        0
    } else {
        successes(granted.drop_last()) + if granted.last() is Some {
            1nat
        } else {
            0nat
        }
    }
}

impl LeaseIssuer {
    /// A fresh issuer: nothing issued, nothing revoked.
    pub fn new(instance: IssuerInstanceId, max_ttl: Duration) -> (i: Self)
        ensures
            i@.instance == instance@,
            i@.max_ttl == max_ttl@,
            i@.next_sequence == 0,
            i@.revoked == Set::<u64>::empty(),
    {
        LeaseIssuer {
            instance,
            max_ttl,
            next_sequence: 0,
            revoked: std::collections::BTreeSet::new(),
        }
    }

    pub fn instance(&self) -> (i: &IssuerInstanceId)
        ensures
            i@ == self@.instance,
    {
        &self.instance
    }

    /// Evaluate `policy` against `origin` and, only if the result is
    /// `Allow`, issue a lease bound to exactly that `origin` for `ttl`.
    ///
    /// Refusals, in order: a zero `ttl`; a `ttl` above this issuer's
    /// maximum; a decision other than `Allow` (carried in the error); an
    /// expiry beyond the clock range. A refusal changes nothing.
    pub fn issue(
        &mut self,
        policy: &PolicySet,
        origin: ProvenanceRecord,
        now: MonotonicTime,
        ttl: Duration,
    ) -> (r: Result<ComputeLease, LeaseError>)
        requires
            old(self)@.next_sequence < u64::MAX,
        ensures
            ttl@ == 0 ==> r == Err::<ComputeLease, LeaseError>(LeaseError::NonPositiveTtl),
            ttl@ != 0 && ttl@ > old(self)@.max_ttl ==> (r matches Err(
                LeaseError::TtlExceedsMaximum { requested, maximum },
            ) && requested@ == ttl@ && maximum@ == old(self)@.max_ttl),
            ttl@ != 0 && ttl@ <= old(self)@.max_ttl && spec_effect(
                policy.document().rules@,
                origin.context,
                origin.request,
            ) != Effect::Allow ==> (r matches Err(LeaseError::Denied { decision }) && is_evaluation(
                decision,
                policy.document(),
                origin.context,
                origin.request,
            )),
            ttl@ != 0 && ttl@ <= old(self)@.max_ttl && spec_effect(
                policy.document().rules@,
                origin.context,
                origin.request,
            ) == Effect::Allow && now@ + ttl@ > u64::MAX ==> r == Err::<ComputeLease, LeaseError>(
                LeaseError::ExpiryOverflow,
            ),
            r is Err ==> final(self)@ == old(self)@,
            sequence_step(old(self)@.next_sequence, granted_sequence(r), final(self)@.next_sequence),
            r is Ok <==> (ttl@ != 0 && ttl@ <= old(self)@.max_ttl && spec_effect(
                policy.document().rules@,
                origin.context,
                origin.request,
            ) == Effect::Allow && now@ + ttl@ <= u64::MAX),
            r matches Ok(lease) ==> {
                &&& lease.spec_id().issuer@ == old(self)@.instance
                &&& lease.spec_id().sequence == old(self)@.next_sequence
                &&& lease.spec_origin() == origin
                &&& lease.spec_policy()@.policy_id == policy.document().id@
                &&& lease.spec_policy().policy_revision == policy.document().revision
                &&& lease.spec_policy().schema_version == crate::envelope::DOMAIN_SCHEMA_VERSION
                &&& reason_fits(
                    lease.spec_decision_reason(),
                    policy.document().rules@,
                    origin.context,
                    origin.request,
                )
                &&& lease.spec_issued_at() == now
                &&& lease.spec_expires_at()@ == now@ + ttl@
                &&& final(self)@.next_sequence == old(self)@.next_sequence + 1
                &&& final(self)@.instance == old(self)@.instance
                &&& final(self)@.max_ttl == old(self)@.max_ttl
                &&& final(self)@.revoked == old(self)@.revoked
            },
    {
        if ttl.is_zero() {
            return Err(LeaseError::NonPositiveTtl);
        }
        if ttl.as_nanos() > self.max_ttl.as_nanos() {
            return Err(LeaseError::TtlExceedsMaximum { requested: ttl, maximum: self.max_ttl });
        }
        let decision = policy.evaluate(&origin.context, &origin.request);
        match decision.effect() {
            Effect::Allow => {},
            Effect::Deny => {
                return Err(LeaseError::Denied { decision });
            },
        }
        let expires_at = match now.checked_add(ttl) {
            Some(t) => t,
            None => {
                return Err(LeaseError::ExpiryOverflow);
            },
        };
        let id = LeaseId { issuer: self.instance.duplicate(), sequence: self.next_sequence };
        self.next_sequence = self.next_sequence + 1;
        let policy_provenance = decision.policy().duplicate();
        let reason = decision.reason().duplicate();
        proof {
            lemma_reason_fits_by_view(
                decision.spec_reason_of(),
                reason,
                policy.document().rules@,
                origin.context,
                origin.request,
            );
        }
        Ok(
            ComputeLease {
                id,
                origin,
                policy: policy_provenance,
                decision_reason: reason,
                issued_at: now,
                expires_at,
            },
        )
    }

    /// Revoke the lease identified by `id`, if this issuer instance issued
    /// it.
    pub fn revoke(&mut self, id: &LeaseId) -> (o: RevocationOutcome)
        ensures
            id.issuer@ != old(self)@.instance ==> o == RevocationOutcome::ForeignIssuer,
            id.issuer@ == old(self)@.instance && id.sequence >= old(self)@.next_sequence ==> o
                == RevocationOutcome::NotIssued,
            id.issuer@ == old(self)@.instance && id.sequence < old(self)@.next_sequence ==> {
                &&& old(self)@.revoked.contains(id.sequence) ==> o
                    == RevocationOutcome::AlreadyRevoked
                &&& !old(self)@.revoked.contains(id.sequence) ==> o == RevocationOutcome::Revoked
                &&& final(self)@.revoked == old(self)@.revoked.insert(id.sequence)
            },
            !(id.issuer@ == old(self)@.instance && id.sequence < old(self)@.next_sequence)
                ==> final(self)@ == old(self)@,
            final(self)@.instance == old(self)@.instance,
            final(self)@.max_ttl == old(self)@.max_ttl,
            final(self)@.next_sequence == old(self)@.next_sequence,
    {
        if !id.issuer.same(&self.instance) {
            return RevocationOutcome::ForeignIssuer;
        }
        if id.sequence >= self.next_sequence {
            return RevocationOutcome::NotIssued;
        }
        if !self.revoked.insert(id.sequence) {
            return RevocationOutcome::AlreadyRevoked;
        }
        RevocationOutcome::Revoked
    }

    /// Validate `lease` against freshly observed `presented` context and
    /// request at `now`. Check order: issuer, revocation, resource,
    /// action, workload process, executable image, then expiry — so a
    /// cross-workload or cross-resource replay is reported as a mismatch,
    /// never downgraded into a routine expiry.
    pub fn validate(
        &self,
        lease: &ComputeLease,
        presented: &ProvenanceRecord,
        now: MonotonicTime,
    ) -> (v: LeaseValidity)
        ensures
            validity_fits(v, self@, *lease, *presented, now),
    {
        if !lease.id.issuer.same(&self.instance) {
            return LeaseValidity::ForeignIssuer { issued_by: lease.id.issuer.duplicate() };
        }
        if self.revoked.contains(&lease.id.sequence) {
            return LeaseValidity::Revoked;
        }
        if !lease.origin.request.resource.same(&presented.request.resource) {
            return LeaseValidity::ResourceMismatch;
        }
        if lease.origin.request.action != presented.request.action {
            return LeaseValidity::ActionMismatch;
        }
        match lease.origin.context.workload.compare_process(&presented.context.workload) {
            IdentityComparison::Different => {
                return LeaseValidity::WorkloadMismatch;
            },
            IdentityComparison::Indeterminate => {
                return LeaseValidity::WorkloadIndeterminate;
            },
            IdentityComparison::Same => {},
        }
        match lease.origin.context.workload.compare_executable(&presented.context.workload) {
            IdentityComparison::Different => {
                return LeaseValidity::ExecutableMismatch;
            },
            IdentityComparison::Indeterminate => {
                return LeaseValidity::WorkloadIndeterminate;
            },
            IdentityComparison::Same => {},
        }
        if now.0 >= lease.expires_at.0 {
            return LeaseValidity::Expired { expired_at: lease.expires_at };
        }
        LeaseValidity::Valid { remaining: lease.expires_at.saturating_duration_since(now) }
    }
}

/// Revocation is final: once a lease's sequence is revoked by its own
/// issuer, every validation of it reports `Revoked`, whatever is presented
/// and whenever.
pub proof fn law_revoked_lease_never_validates(
    issuer: LeaseIssuerView,
    lease: ComputeLease,
    presented: ProvenanceRecord,
    now: MonotonicTime,
    v: LeaseValidity,
)
    requires
        lease.spec_id().issuer@ == issuer.instance,
        issuer.revoked.contains(lease.spec_id().sequence),
        validity_fits(v, issuer, lease, presented, now),
    ensures
        v == LeaseValidity::Revoked,
{
}

/// Expiry is irreversible: once a lease validates as `Expired`, every
/// later instant gives the same verdict for the same issuer state and
/// presentation — never `Valid` again.
pub proof fn law_expiry_is_irreversible(
    issuer: LeaseIssuerView,
    lease: ComputeLease,
    presented: ProvenanceRecord,
    earlier: MonotonicTime,
    later: MonotonicTime,
    first: LeaseValidity,
    second: LeaseValidity,
)
    requires
        earlier@ <= later@,
        validity_fits(first, issuer, lease, presented, earlier),
        first is Expired,
        validity_fits(second, issuer, lease, presented, later),
    ensures
        second == first,
{
}

/// A restarted (or any other) issuer instance never honours a lease
/// issued by another instance.
pub proof fn law_foreign_lease_never_validates(
    issuer: LeaseIssuerView,
    lease: ComputeLease,
    presented: ProvenanceRecord,
    now: MonotonicTime,
    v: LeaseValidity,
)
    requires
        lease.spec_id().issuer@ != issuer.instance,
        validity_fits(v, issuer, lease, presented, now),
    ensures
        v == (LeaseValidity::ForeignIssuer { issued_by: lease.spec_id().issuer }),
{
}

/// A live, unrevoked lease presented with the very record it was issued
/// for is valid for exactly the time left before its expiry — provided
/// that record carries a process start token and a usable executable hash
/// or path, so the workload can be recognised again.
pub proof fn law_lease_validates_against_its_origin(
    issuer: LeaseIssuerView,
    lease: ComputeLease,
    now: MonotonicTime,
    v: LeaseValidity,
)
    requires
        lease.spec_id().issuer@ == issuer.instance,
        !issuer.revoked.contains(lease.spec_id().sequence),
        lease.spec_origin().context.workload.process_start is Present,
        usable(lease.spec_origin().context.workload.executable_hash) || usable(
            lease.spec_origin().context.workload.executable_path,
        ),
        now@ < lease.spec_expires_at()@,
        validity_fits(v, issuer, lease, lease.spec_origin(), now),
    ensures
        v matches LeaseValidity::Valid { remaining } && remaining@ == lease.spec_expires_at()@
            - now@,
{
}


/// The counter of a run of issuing calls, from a fresh start, always
/// equals the number of successes so far.
proof fn lemma_counter_counts_successes(counters: Seq<u64>, granted: Seq<Option<u64>>, k: int)
    requires
        counters.len() == granted.len() + 1,
        counters[0] == 0,
        forall|i: int|
            0 <= i < granted.len() ==> sequence_step(
                #[trigger] counters[i],
                granted[i],
                counters[i + 1],
            ),
        0 <= k <= granted.len(),
    ensures
        counters[k] == successes(granted.take(k)),
    decreases k,
{
    if k > 0 {
        lemma_counter_counts_successes(counters, granted, k - 1);
        assert(granted.take(k).drop_last() =~= granted.take(k - 1));
        assert(sequence_step(counters[k - 1], granted[k - 1], counters[k]));
    } else {
        assert(granted.take(0) =~= Seq::<Option<u64>>::empty());
    }
}

/// A run of issuing calls never moves its counter backwards.
proof fn lemma_counter_monotone(counters: Seq<u64>, granted: Seq<Option<u64>>, a: int, b: int)
    requires
        counters.len() == granted.len() + 1,
        forall|i: int|
            0 <= i < granted.len() ==> sequence_step(
                #[trigger] counters[i],
                granted[i],
                counters[i + 1],
            ),
        0 <= a <= b <= granted.len(),
    ensures
        counters[a] <= counters[b],
    decreases b - a,
{
    if a < b {
        lemma_counter_monotone(counters, granted, a, b - 1);
        assert(sequence_step(counters[b - 1], granted[b - 1], counters[b]));
    }
}

/// The n-th successful issue of a fresh issuer carries sequence number n
/// (counting from zero), whatever refusals came between; so no two
/// successful issues of one issuer share an id — a renewal after expiry is
/// a new lease, never a continuation. `counters[i]` is the issuer's
/// counter before the i-th call and `granted[i]` what that call granted,
/// as [`LeaseIssuer::issue`] states it through [`sequence_step`];
/// [`LeaseIssuer::new`] starts the counter at zero.
pub proof fn law_nth_issue_gets_sequence_n(counters: Seq<u64>, granted: Seq<Option<u64>>)
    requires
        counters.len() == granted.len() + 1,
        counters[0] == 0,
        forall|i: int|
            0 <= i < granted.len() ==> sequence_step(
                #[trigger] counters[i],
                granted[i],
                counters[i + 1],
            ),
    ensures
        forall|i: int|
            0 <= i < granted.len() && #[trigger] granted[i] is Some ==> granted[i]->0
                == successes(granted.take(i)),
        forall|i: int, j: int|
            0 <= i < j < granted.len() && #[trigger] granted[i] is Some
                && #[trigger] granted[j] is Some ==> granted[i]->0 != granted[j]->0,
{
    assert forall|i: int|
        0 <= i < granted.len() && #[trigger] granted[i] is Some implies granted[i]->0
        == successes(granted.take(i)) by {
        lemma_counter_counts_successes(counters, granted, i);
        assert(sequence_step(counters[i], granted[i], counters[i + 1]));
    }
    assert forall|i: int, j: int|
        0 <= i < j < granted.len() && #[trigger] granted[i] is Some
            && #[trigger] granted[j] is Some implies granted[i]->0 != granted[j]->0 by {
        assert(sequence_step(counters[i], granted[i], counters[i + 1]));
        assert(sequence_step(counters[j], granted[j], counters[j + 1]));
        lemma_counter_monotone(counters, granted, i + 1, j);
    }
}


/// Law (a replaced binary never validates): when the lease's origin and
/// the presented workload both carry usable executable hashes (present,
/// not self-asserted) and those hashes differ — an in-place `execve` into
/// other content, pid and start token unchanged — validation never
/// reports `Valid`; once issuer, revocation, resource, action and process
/// identity all check out, it reports `ExecutableMismatch`.
pub proof fn law_replaced_binary_never_validates(
    issuer: LeaseIssuerView,
    lease: ComputeLease,
    presented: ProvenanceRecord,
    now: MonotonicTime,
    v: LeaseValidity,
)
    requires
        validity_fits(v, issuer, lease, presented, now),
        lease.spec_origin().context.workload.executable_hash is Present,
        lease.spec_origin().context.workload.executable_hash->source
            != crate::identity::EvidenceSource::SelfAsserted,
        presented.context.workload.executable_hash is Present,
        presented.context.workload.executable_hash->source
            != crate::identity::EvidenceSource::SelfAsserted,
        lease.spec_origin().context.workload.executable_hash->value@
            != presented.context.workload.executable_hash->value@,
    ensures
        !(v is Valid),
        ({
            let o = lease.spec_origin();
            &&& lease.spec_id().issuer@ == issuer.instance
            &&& !issuer.revoked.contains(lease.spec_id().sequence)
            &&& o.request.resource@ == presented.request.resource@
            &&& o.request.action == presented.request.action
            &&& o.context.workload.pid == presented.context.workload.pid
            &&& o.context.workload.process_start is Present
            &&& presented.context.workload.process_start is Present
            &&& o.context.workload.process_start->value
                == presented.context.workload.process_start->value
        }) ==> v == LeaseValidity::ExecutableMismatch,
{
    crate::identity::law_executable_hash_decides(
        lease.spec_origin().context.workload,
        presented.context.workload,
    );
}

} // verus!
