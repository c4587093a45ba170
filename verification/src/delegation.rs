//! Bounded compute delegation to descendant workloads.
//!
//! A delegation edge is an explicit, agent-minted grant, one per parent
//! [`ComputeLease`]. Kernel-observed process ancestry is never the source
//! of delegated authority — it only corroborates that the requester sits
//! below the grant holder, and can only ever reject, never grant.
//!
//! [`delegated_admission`] assumes `ancestry[0]` is the requester's
//! immediate parent and that increasing indices walk towards the root,
//! which is how the platform collectors build it.

use vstd::prelude::*;

use crate::identity::{
    spec_compare_ancestor, spec_compare_process, usable, usable_value, Evidence, EvidenceSource,
    ExecutionContext, IdentityComparison, ProcessAncestor, WorkloadIdentity,
};
use crate::lease::{ComputeLease, LeaseId, MonotonicTime};
use crate::resource::{Action, ComputeRequest, ResourceIdentity, ResourceIdentityView};
use crate::session::SessionKey;
use crate::text::{contains_text, sorted_texts, string_of, texts_of, texts_sorted};
use crate::time::Duration;

verus! {

/// The deepest ancestry chain any collector corroborates; no deployment
/// may demand delegation deeper than this.
pub const MAX_ANCESTRY_DEPTH: u8 = 32u8;

/// The resources and actions one grant admits requests for — exactly the
/// parent lease's own request. No public constructor.
#[derive(Debug, Clone, PartialEq, Eq)]
pub struct DelegationScope {
    resources: Vec<ResourceIdentity>,
    actions: Vec<Action>,
}

impl DelegationScope {
    pub closed spec fn spec_resources(&self) -> Seq<ResourceIdentityView> {
        self.resources@.map_values(|r: ResourceIdentity| r@)
    }

    pub closed spec fn spec_actions(&self) -> Seq<Action> {
        self.actions@
    }

    /// The scope of exactly `request`'s resource and action.
    fn from_request(request: &ComputeRequest) -> (s: Self)
        ensures
            s.spec_resources() == seq![request.resource@],
            s.spec_actions() == seq![request.action],
    {
        let mut resources: Vec<ResourceIdentity> = Vec::new();
        resources.push(request.resource.duplicate());
        let mut actions: Vec<Action> = Vec::new();
        actions.push(request.action);
        let s = DelegationScope { resources, actions };
        assert(s.spec_resources() =~= seq![request.resource@]);
        assert(s.spec_actions() =~= seq![request.action]);
        s
    }

    pub fn resources(&self) -> (r: &Vec<ResourceIdentity>)
        ensures
            r@.map_values(|x: ResourceIdentity| x@) == self.spec_resources(),
    {
        &self.resources
    }

    pub fn actions(&self) -> (r: &Vec<Action>)
        ensures
            r@ == self.spec_actions(),
    {
        &self.actions
    }

    /// Whether `resource` is in scope.
    fn contains_resource(&self, resource: &ResourceIdentity) -> (b: bool)
        ensures
            b == self.spec_resources().contains(resource@),
    {
        let mut i: usize = 0;
        while i < self.resources.len()
            invariant
                i <= self.resources@.len(),
                forall|k: int| 0 <= k < i ==> self.spec_resources()[k] != resource@,
            decreases self.resources.len() - i,
        {
            if self.resources[i].same(resource) {
                assert(self.spec_resources()[i as int] == resource@);
                return true;
            }
            i = i + 1;
        }
        false
    }
}

/// Whether `action` is one of `actions`.
fn contains_action(actions: &Vec<Action>, action: Action) -> (b: bool)
    ensures
        b == actions@.contains(action),
{
    let mut i: usize = 0;
    while i < actions.len()
        invariant
            i <= actions@.len(),
            forall|k: int| 0 <= k < i ==> actions@[k] != action,
        decreases actions.len() - i,
    {
        if actions[i] == action {
            return true;
        }
        i = i + 1;
    }
    false
}

/// Why [`DelegationBounds::new`] refused a configuration.
#[derive(Debug, Clone, Copy, PartialEq, Eq, Structural)]
pub enum DelegationBoundsError {
    /// `Action::Unknown` can never be delegable.
    ActionNotDelegable,
    DepthExceedsMax { requested: u8, maximum: u8 },
    /// A zero `min_remaining` would admit against an all-but-expired
    /// parent.
    NonPositiveMinRemaining,
}

impl DelegationBoundsError {
    /// The human-readable description of this error.
    pub fn message(&self) -> (s: String)
        ensures
            *self == DelegationBoundsError::ActionNotDelegable ==> s@
                == "Action::Unknown cannot be a delegable action"@,
            self matches DelegationBoundsError::DepthExceedsMax { requested, maximum } ==> s@
                == "max_depth "@ + crate::decimal::decimal(requested as nat)
                + " exceeds the collector-verifiable maximum "@ + crate::decimal::decimal(
                maximum as nat,
            ),
            *self == DelegationBoundsError::NonPositiveMinRemaining ==> s@
                == "min_remaining must be greater than zero"@,
    {
        match self {
            DelegationBoundsError::ActionNotDelegable => string_of(
                "Action::Unknown cannot be a delegable action",
            ),
            DelegationBoundsError::DepthExceedsMax { requested, maximum } => {
                let mut s = string_of("max_depth ");
                crate::decimal::push_decimal(&mut s, *requested as u128);
                crate::text::push_str(&mut s, " exceeds the collector-verifiable maximum ");
                crate::decimal::push_decimal(&mut s, *maximum as u128);
                s
            },
            DelegationBoundsError::NonPositiveMinRemaining => string_of(
                "min_remaining must be greater than zero",
            ),
        }
    }
}

/// Deployment-configured bounds every admission is checked against. Only
/// [`DelegationBounds::new`] builds one.
#[derive(Debug, PartialEq, Eq)]
pub struct DelegationBounds {
    max_depth: u8,
    max_child_ttl: Duration,
    min_remaining: Duration,
    delegable_actions: Vec<Action>,
    transition_markers: Vec<String>,
    require_same_session: bool,
    require_same_cgroup: bool,
}

/// The abstract value of a [`DelegationBounds`].
pub struct DelegationBoundsView {
    pub max_depth: u8,
    pub max_child_ttl: nat,
    pub min_remaining: nat,
    pub delegable_actions: Set<Action>,
    pub transition_markers: Set<Seq<char>>,
    pub require_same_session: bool,
    pub require_same_cgroup: bool,
}

impl View for DelegationBounds {
    type V = DelegationBoundsView;

    closed spec fn view(&self) -> DelegationBoundsView {
        DelegationBoundsView {
            max_depth: self.max_depth,
            max_child_ttl: self.max_child_ttl@,
            min_remaining: self.min_remaining@,
            delegable_actions: self.delegable_actions@.to_set(),
            transition_markers: texts_of(self.transition_markers@).to_set(),
            require_same_session: self.require_same_session,
            require_same_cgroup: self.require_same_cgroup,
        }
    }
}

impl DelegationBounds {
    #[verifier::type_invariant]
    closed spec fn wf(self) -> bool {
        &&& texts_sorted(texts_of(self.transition_markers@))
        &&& self.delegable_actions@ == seq![Action::Compute] || self.delegable_actions@
            == Seq::<Action>::empty()
    }

    /// Validated bounds. Refusals, in order: `Action::Unknown` among the
    /// delegable actions; `max_depth` above [`MAX_ANCESTRY_DEPTH`]; a zero
    /// `min_remaining`.
    pub fn new(
        max_depth: u8,
        max_child_ttl: Duration,
        min_remaining: Duration,
        delegable_actions: Vec<Action>,
        transition_markers: Vec<String>,
        require_same_session: bool,
        require_same_cgroup: bool,
    ) -> (r: Result<Self, DelegationBoundsError>)
        ensures
            delegable_actions@.contains(Action::Unknown) ==> r == Err::<
                DelegationBounds,
                DelegationBoundsError,
            >(DelegationBoundsError::ActionNotDelegable),
            !delegable_actions@.contains(Action::Unknown) && max_depth > MAX_ANCESTRY_DEPTH ==> r
                == Err::<DelegationBounds, DelegationBoundsError>(
                DelegationBoundsError::DepthExceedsMax {
                    requested: max_depth,
                    maximum: MAX_ANCESTRY_DEPTH,
                },
            ),
            !delegable_actions@.contains(Action::Unknown) && max_depth <= MAX_ANCESTRY_DEPTH
                && min_remaining@ == 0 ==> r == Err::<DelegationBounds, DelegationBoundsError>(
                DelegationBoundsError::NonPositiveMinRemaining,
            ),
            r is Ok <==> (!delegable_actions@.contains(Action::Unknown) && max_depth
                <= MAX_ANCESTRY_DEPTH && min_remaining@ != 0),
            r matches Ok(b) ==> b@ == (DelegationBoundsView {
                max_depth,
                max_child_ttl: max_child_ttl@,
                min_remaining: min_remaining@,
                delegable_actions: delegable_actions@.to_set(),
                transition_markers: texts_of(transition_markers@).to_set(),
                require_same_session,
                require_same_cgroup,
            }),
    {
        if contains_action(&delegable_actions, Action::Unknown) {
            return Err(DelegationBoundsError::ActionNotDelegable);
        }
        if max_depth > MAX_ANCESTRY_DEPTH {
            return Err(
                DelegationBoundsError::DepthExceedsMax {
                    requested: max_depth,
                    maximum: MAX_ANCESTRY_DEPTH,
                },
            );
        }
        if min_remaining.is_zero() {
            return Err(DelegationBoundsError::NonPositiveMinRemaining);
        }
        let actions: Vec<Action> = if contains_action(&delegable_actions, Action::Compute) {
            let mut a: Vec<Action> = Vec::new();
            a.push(Action::Compute);
            assert(a@ =~= seq![Action::Compute]);
            a
        } else {
            Vec::new()
        };
        proof {
            assert forall|a: Action| #[trigger]
                actions@.to_set().contains(a) == delegable_actions@.to_set().contains(a) by {
                match a {
                    Action::Compute => {
                        if delegable_actions@.contains(a) {
                            assert(actions@[0] == a);
                        }
                    },
                    Action::Unknown => {},
                }
            }
            assert(actions@.to_set() =~= delegable_actions@.to_set());
        }
        let markers = sorted_texts(&transition_markers);
        assert(actions@ == seq![Action::Compute] || actions@ == Seq::<Action>::empty());
        Ok(
            DelegationBounds {
                max_depth,
                max_child_ttl,
                min_remaining,
                delegable_actions: actions,
                transition_markers: markers,
                require_same_session,
                require_same_cgroup,
            },
        )
    }

    pub fn max_depth(&self) -> (r: u8)
        ensures
            r == self@.max_depth,
    {
        self.max_depth
    }

    pub fn max_child_ttl(&self) -> (r: Duration)
        ensures
            r@ == self@.max_child_ttl,
    {
        self.max_child_ttl
    }

    pub fn min_remaining(&self) -> (r: Duration)
        ensures
            r@ == self@.min_remaining,
    {
        self.min_remaining
    }

    /// The delegable actions, in declaration order without repeats.
    pub fn delegable_actions(&self) -> (r: &Vec<Action>)
        ensures
            r@.to_set() == self@.delegable_actions,
            r@.no_duplicates(),
    {
        proof {
            use_type_invariant(self);
        }
        &self.delegable_actions
    }

    /// The transition markers, sorted without repeats.
    pub fn transition_markers(&self) -> (r: &Vec<String>)
        ensures
            texts_of(r@).to_set() == self@.transition_markers,
            texts_sorted(texts_of(r@)),
    {
        proof {
            use_type_invariant(self);
        }
        &self.transition_markers
    }

    pub fn require_same_session(&self) -> (r: bool)
        ensures
            r == self@.require_same_session,
    {
        self.require_same_session
    }

    pub fn require_same_cgroup(&self) -> (r: bool)
        ensures
            r == self@.require_same_cgroup,
    {
        self.require_same_cgroup
    }
}

/// A copy of a list of strings.
fn copy_strings(v: &Vec<String>) -> (r: Vec<String>)
    ensures
        r@ == v@,
{
    let mut r: Vec<String> = Vec::new();
    let mut i: usize = 0;
    while i < v.len()
        invariant
            i <= v@.len(),
            r@ == v@.take(i as int),
        decreases v.len() - i,
    {
        r.push(v[i].clone());
        assert(r@ =~= v@.take(i + 1));
        i = i + 1;
    }
    assert(v@.take(i as int) =~= v@);
    r
}

impl Clone for DelegationBounds {
    fn clone(&self) -> (b: Self)
        ensures
            b@ == self@,
    {
        proof {
            use_type_invariant(self);
        }
        let actions: Vec<Action> = if self.delegable_actions.len() == 0 {
            Vec::new()
        } else {
            let mut a: Vec<Action> = Vec::new();
            a.push(Action::Compute);
            assert(a@ =~= self.delegable_actions@);
            a
        };
        DelegationBounds {
            max_depth: self.max_depth,
            max_child_ttl: self.max_child_ttl,
            min_remaining: self.min_remaining,
            delegable_actions: actions,
            transition_markers: copy_strings(&self.transition_markers),
            require_same_session: self.require_same_session,
            require_same_cgroup: self.require_same_cgroup,
        }
    }
}

/// One agent-minted delegation edge, tied to the parent lease it narrows.
/// Only [`DelegationGrant::mint`] builds one.
#[derive(Debug, Clone, PartialEq, Eq)]
pub struct DelegationGrant {
    lease_id: LeaseId,
    holder: WorkloadIdentity,
    owner_uid: u32,
    session_key: Option<SessionKey>,
    cgroup_path: Option<String>,
    scope: DelegationScope,
    depth: u8,
    not_after: MonotonicTime,
    parent: Option<LeaseId>,
}

impl DelegationGrant {
    pub closed spec fn spec_lease_id(&self) -> LeaseId {
        self.lease_id
    }

    pub closed spec fn spec_holder(&self) -> WorkloadIdentity {
        self.holder
    }

    pub closed spec fn spec_owner_uid(&self) -> u32 {
        self.owner_uid
    }

    pub closed spec fn spec_session_key(&self) -> Option<SessionKey> {
        self.session_key
    }

    pub closed spec fn spec_cgroup_path(&self) -> Option<String> {
        self.cgroup_path
    }

    pub closed spec fn spec_scope(&self) -> DelegationScope {
        self.scope
    }

    pub closed spec fn spec_depth(&self) -> u8 {
        self.depth
    }

    pub closed spec fn spec_not_after(&self) -> MonotonicTime {
        self.not_after
    }

    pub closed spec fn spec_parent(&self) -> Option<LeaseId> {
        self.parent
    }

    /// Mint the grant for `lease`: its id, expiry and scope come from the
    /// lease itself. `None` when the lease's action is not delegable under
    /// `bounds`.
    pub fn mint(
        lease: &ComputeLease,
        bounds: &DelegationBounds,
        holder: WorkloadIdentity,
        owner_uid: u32,
        session_key: Option<SessionKey>,
        cgroup_path: Option<String>,
        depth: u8,
        parent: Option<LeaseId>,
    ) -> (r: Option<Self>)
        ensures
            r is None <==> !bounds@.delegable_actions.contains(
                lease.spec_origin().request.action,
            ),
            r matches Some(g) ==> {
                &&& g.spec_lease_id() == lease.spec_id()
                &&& g.spec_holder() == holder
                &&& g.spec_owner_uid() == owner_uid
                &&& g.spec_session_key() == session_key
                &&& g.spec_cgroup_path() == cgroup_path
                &&& g.spec_scope().spec_resources() == seq![lease.spec_origin().request.resource@]
                &&& g.spec_scope().spec_actions() == seq![lease.spec_origin().request.action]
                &&& g.spec_depth() == depth
                &&& g.spec_not_after() == lease.spec_expires_at()
                &&& g.spec_parent() == parent
            },
    {
        let request = &lease.origin().request;
        if !contains_action(&bounds.delegable_actions, request.action) {
            return None;
        }
        Some(
            DelegationGrant {
                lease_id: lease.id().duplicate(),
                holder,
                owner_uid,
                session_key,
                cgroup_path,
                scope: DelegationScope::from_request(request),
                depth,
                not_after: lease.expires_at(),
                parent,
            },
        )
    }

    pub fn lease_id(&self) -> (r: &LeaseId)
        ensures
            *r == self.spec_lease_id(),
    {
        &self.lease_id
    }

    pub fn holder(&self) -> (r: &WorkloadIdentity)
        ensures
            *r == self.spec_holder(),
    {
        &self.holder
    }

    pub fn owner_uid(&self) -> (r: u32)
        ensures
            r == self.spec_owner_uid(),
    {
        self.owner_uid
    }

    pub fn session_key(&self) -> (r: Option<SessionKey>)
        ensures
            r == self.spec_session_key(),
    {
        self.session_key
    }

    pub fn cgroup_path(&self) -> (r: Option<&str>)
        ensures
            r is None <==> self.spec_cgroup_path() is None,
            r matches Some(c) ==> c@ == self.spec_cgroup_path()->0@,
    {
        match &self.cgroup_path {
            Some(c) => Some(c.as_str()),
            None => None,
        }
    }

    pub fn scope(&self) -> (r: &DelegationScope)
        ensures
            *r == self.spec_scope(),
    {
        &self.scope
    }

    pub fn depth(&self) -> (r: u8)
        ensures
            r == self.spec_depth(),
    {
        self.depth
    }

    pub fn not_after(&self) -> (r: MonotonicTime)
        ensures
            r == self.spec_not_after(),
    {
        self.not_after
    }

    pub fn parent(&self) -> (r: Option<&LeaseId>)
        ensures
            r is None <==> self.spec_parent() is None,
            r matches Some(p) ==> *p == self.spec_parent()->0,
    {
        match &self.parent {
            Some(p) => Some(p),
            None => None,
        }
    }
}

/// One bound a refused delegated request exceeded. Declaration order is
/// the order they are listed in.
#[derive(Debug, Clone, Copy, PartialEq, Eq, Structural, PartialOrd, Ord)]
pub enum ExceededBound {
    Resource,
    Action,
    Depth,
    Duration,
    HolderLiveness,
    AncestryLinkage,
    OwnerUid,
    CgroupPath,
    SessionKey,
    TrustTransition,
}

/// The result of [`delegated_admission`].
#[derive(Debug, Clone, PartialEq, Eq)]
pub enum DelegationVerdict {
    /// Admitted as a child of the grant's lease, at `depth`, until
    /// `not_after`.
    Admitted { parent: LeaseId, depth: u8, not_after: MonotonicTime },
    /// Every confirmed bound exceeded, each once, in declaration order.
    NotAdmitted { exceeded: Vec<ExceededBound> },
    /// Some evidence could not be confirmed and nothing was confirmed
    /// exceeded; must be treated like `NotAdmitted`.
    Indeterminate { reason: String },
}

/// The abstract value of a [`DelegationVerdict`].
pub enum DelegationView {
    Admitted { parent: LeaseId, depth: u8, not_after: u64 },
    NotAdmitted(Seq<ExceededBound>),
    Indeterminate(Seq<char>),
}

impl View for DelegationVerdict {
    type V = DelegationView;

    open spec fn view(&self) -> DelegationView {
        match self {
            DelegationVerdict::Admitted { parent, depth, not_after } => DelegationView::Admitted {
                parent: *parent,
                depth: *depth,
                not_after: not_after@,
            },
            DelegationVerdict::NotAdmitted { exceeded } => DelegationView::NotAdmitted(exceeded@),
            DelegationVerdict::Indeterminate { reason } => DelegationView::Indeterminate(reason@),
        }
    }
}

/// The first index of `ancestry` that is confirmed to be `holder`.
pub open spec fn first_linked(holder: WorkloadIdentity, ancestry: Seq<ProcessAncestor>) -> Option<
    int,
>
    decreases ancestry.len(),
{
    if ancestry.len() == 0 {
        None
    } else {
        match first_linked(holder, ancestry.drop_last()) {
            Some(k) => Some(k),
            None => if spec_compare_ancestor(holder, ancestry.last()) == IdentityComparison::Same {
                Some(ancestry.len() - 1)
            } else {
                None
            },
        }
    }
}

/// Some entry of `ancestry` could not be compared with `holder`.
pub open spec fn linkage_unresolved(holder: WorkloadIdentity, ancestry: Seq<ProcessAncestor>) -> bool {
    exists|i: int|
        0 <= i < ancestry.len() && spec_compare_ancestor(holder, #[trigger] ancestry[i])
            == IdentityComparison::Indeterminate
}

/// The ancestors strictly between the requester and the linked holder.
pub open spec fn span(grant: DelegationGrant, requester: ExecutionContext) -> Seq<ProcessAncestor> {
    match first_linked(grant.spec_holder(), requester.workload.ancestry@) {
        Some(k) => requester.workload.ancestry@.take(k),
        None => Seq::empty(),
    }
}

/// A span ancestor runs a configured transition-marker executable.
pub open spec fn span_crosses_marker(span: Seq<ProcessAncestor>, markers: Set<Seq<char>>) -> bool {
    exists|i: int|
        0 <= i < span.len() && usable((#[trigger] span[i]).executable_path) && markers.contains(
            span[i].executable_path->value@,
        )
}

/// A span ancestor's executable path cannot be relied on.
pub open spec fn span_unresolved(span: Seq<ProcessAncestor>) -> bool {
    exists|i: int| 0 <= i < span.len() && !usable((#[trigger] span[i]).executable_path)
}

/// Which bounds a request exceeds, by check: holder liveness, ancestry
/// linkage, owner uid, trust transition in the span, session key (when
/// required), cgroup (when required), resource, action, depth, and the
/// parent's remaining time.
pub open spec fn exceeds(
    bound: ExceededBound,
    grant: DelegationGrant,
    bounds: DelegationBoundsView,
    requester: ExecutionContext,
    session_key: Evidence<SessionKey>,
    observed_holder: WorkloadIdentity,
    request: ComputeRequest,
    now: MonotonicTime,
) -> bool {
    match bound {
        ExceededBound::HolderLiveness => spec_compare_process(grant.spec_holder(), observed_holder)
            == IdentityComparison::Different,
        ExceededBound::AncestryLinkage => first_linked(
            grant.spec_holder(),
            requester.workload.ancestry@,
        ) is None && !linkage_unresolved(grant.spec_holder(), requester.workload.ancestry@),
        ExceededBound::OwnerUid => usable(requester.workload.uid) && requester.workload.uid->value
            != grant.spec_owner_uid(),
        ExceededBound::TrustTransition => span_crosses_marker(
            span(grant, requester),
            bounds.transition_markers,
        ),
        ExceededBound::SessionKey => bounds.require_same_session && match grant.spec_session_key() {
            None => true,
            Some(k) => usable(session_key) && session_key->value != k,
        },
        ExceededBound::CgroupPath => bounds.require_same_cgroup && match grant.spec_cgroup_path() {
            None => requester.cgroup_path is Present,
            Some(c) => usable(requester.cgroup_path) && requester.cgroup_path->value@ != c@,
        },
        ExceededBound::Resource => !grant.spec_scope().spec_resources().contains(
            request.resource@,
        ),
        ExceededBound::Action => !grant.spec_scope().spec_actions().contains(request.action)
            || !bounds.delegable_actions.contains(request.action),
        ExceededBound::Depth => grant.spec_depth() + 1 > bounds.max_depth,
        ExceededBound::Duration => now@ >= grant.spec_not_after()@ || grant.spec_not_after()@
            - now@ < bounds.min_remaining,
    }
}

/// The bound at position `i` of the declaration order.
pub open spec fn bound_at(i: int) -> ExceededBound {
    if i == 0 {
        ExceededBound::Resource
    } else if i == 1 {
        ExceededBound::Action
    } else if i == 2 {
        ExceededBound::Depth
    } else if i == 3 {
        ExceededBound::Duration
    } else if i == 4 {
        ExceededBound::HolderLiveness
    } else if i == 5 {
        ExceededBound::AncestryLinkage
    } else if i == 6 {
        ExceededBound::OwnerUid
    } else if i == 7 {
        ExceededBound::CgroupPath
    } else if i == 8 {
        ExceededBound::SessionKey
    } else {
        ExceededBound::TrustTransition
    }
}

/// The bounds at the positions where `flags` holds, in order.
pub open spec fn bounds_where(flags: Seq<bool>) -> Seq<ExceededBound>
    decreases flags.len(),
{
    if flags.len() == 0 {
        Seq::empty()
    } else {
        let rest = bounds_where(flags.drop_last());
        if flags.last() {
            rest.push(bound_at(flags.len() - 1))
        } else {
            rest
        }
    }
}

/// No bound is selected exactly when no flag holds.
pub proof fn lemma_bounds_where_empty(flags: Seq<bool>)
    ensures
        bounds_where(flags).len() == 0 <==> forall|i: int| 0 <= i < flags.len() ==> !flags[i],
    decreases flags.len(),
{
    if flags.len() > 0 {
        lemma_bounds_where_empty(flags.drop_last());
        if bounds_where(flags).len() == 0 {
            assert forall|i: int| 0 <= i < flags.len() implies !flags[i] by {
                if i < flags.len() - 1 {
                    assert(flags[i] == flags.drop_last()[i]);
                }
            }
        }
        if forall|i: int| 0 <= i < flags.len() ==> !flags[i] {
            assert forall|i: int| 0 <= i < flags.drop_last().len() implies !flags.drop_last()[i] by {
                assert(flags[i] == flags.drop_last()[i]);
            }
        }
    }
}

/// Every exceeded bound, in declaration order.
pub open spec fn exceeded_bounds(
    grant: DelegationGrant,
    bounds: DelegationBoundsView,
    requester: ExecutionContext,
    session_key: Evidence<SessionKey>,
    observed_holder: WorkloadIdentity,
    request: ComputeRequest,
    now: MonotonicTime,
) -> Seq<ExceededBound> {
    bounds_where(
        Seq::new(
            10,
            |i: int|
                exceeds(
                    bound_at(i),
                    grant,
                    bounds,
                    requester,
                    session_key,
                    observed_holder,
                    request,
                    now,
                ),
        ),
    )
}

/// The reason of the first check, in check order, whose evidence could
/// not be confirmed, if any.
pub open spec fn first_gap(
    grant: DelegationGrant,
    bounds: DelegationBoundsView,
    requester: ExecutionContext,
    session_key: Evidence<SessionKey>,
    observed_holder: WorkloadIdentity,
) -> Option<Seq<char>> {
    if spec_compare_process(grant.spec_holder(), observed_holder)
        == IdentityComparison::Indeterminate {
        Some("grant holder liveness could not be confirmed"@)
    } else if first_linked(grant.spec_holder(), requester.workload.ancestry@) is None
        && linkage_unresolved(grant.spec_holder(), requester.workload.ancestry@) {
        Some("ancestry linkage to the grant holder could not be confirmed"@)
    } else if !usable(requester.workload.uid) {
        Some("requester uid evidence is unusable"@)
    } else if span_unresolved(span(grant, requester)) {
        Some("ancestor executable path evidence in the delegation span is unusable"@)
    } else if bounds.require_same_session && grant.spec_session_key() is Some && !usable(
        session_key,
    ) {
        Some("requester session-key evidence is unusable"@)
    } else if bounds.require_same_cgroup && grant.spec_cgroup_path() is Some && !usable(
        requester.cgroup_path,
    ) {
        Some("requester cgroup evidence is unusable"@)
    } else {
        None
    }
}

/// The verdict [`delegated_admission`] gives: every confirmed exceeded
/// bound if any; else the first unconfirmable check; else admission one
/// level deeper, until the earlier of `now + max_child_ttl` and the
/// parent's own expiry.
pub open spec fn spec_admission(
    grant: DelegationGrant,
    bounds: DelegationBoundsView,
    requester: ExecutionContext,
    session_key: Evidence<SessionKey>,
    observed_holder: WorkloadIdentity,
    request: ComputeRequest,
    now: MonotonicTime,
) -> DelegationView {
    let exceeded = exceeded_bounds(
        grant,
        bounds,
        requester,
        session_key,
        observed_holder,
        request,
        now,
    );
    if exceeded.len() > 0 {
        DelegationView::NotAdmitted(exceeded)
    } else {
        match first_gap(grant, bounds, requester, session_key, observed_holder) {
            Some(reason) => DelegationView::Indeterminate(reason),
            None => DelegationView::Admitted {
                parent: grant.spec_lease_id(),
                depth: (grant.spec_depth() + 1) as u8,
                not_after: if now@ + bounds.max_child_ttl <= u64::MAX && now@ + bounds.max_child_ttl
                    <= grant.spec_not_after()@ {
                    (now@ + bounds.max_child_ttl) as u64
                } else {
                    grant.spec_not_after()@
                },
            },
        }
    }
}

/// Find the holder in `ancestry`: the first confirmed index, and whether
/// any entry could not be compared.
fn find_holder(holder: &WorkloadIdentity, ancestry: &Vec<ProcessAncestor>) -> (r: (
    Option<usize>,
    bool,
))
    ensures
        match r.0 {
            Some(k) => first_linked(*holder, ancestry@) == Some(k as int),
            None => first_linked(*holder, ancestry@) is None,
        },
        r.0 matches Some(k) ==> k < ancestry@.len(),
        r.1 == linkage_unresolved(*holder, ancestry@),
{
    let mut found: Option<usize> = None;
    let mut unresolved = false;
    let mut i: usize = 0;
    while i < ancestry.len()
        invariant
            i <= ancestry@.len(),
            match found {
                Some(k) => first_linked(*holder, ancestry@.take(i as int)) == Some(k as int),
                None => first_linked(*holder, ancestry@.take(i as int)) is None,
            },
            found matches Some(k) ==> k < i,
            unresolved == exists|j: int|
                0 <= j < i && spec_compare_ancestor(*holder, #[trigger] ancestry@[j])
                    == IdentityComparison::Indeterminate,
        decreases ancestry.len() - i,
    {
        let c = holder.compare_ancestor(&ancestry[i]);
        proof {
            assert(ancestry@.take(i + 1).drop_last() =~= ancestry@.take(i as int));
            assert(ancestry@.take(i + 1).last() == ancestry@[i as int]);
        }
        match c {
            IdentityComparison::Same => {
                if found.is_none() {
                    found = Some(i);
                }
            },
            IdentityComparison::Indeterminate => {
                unresolved = true;
            },
            IdentityComparison::Different => {},
        }
        i = i + 1;
    }
    assert(ancestry@.take(i as int) =~= ancestry@);
    (found, unresolved)
}

/// Scan the ancestors below index `k`: whether one runs a transition
/// marker, and whether one's executable path cannot be relied on.
fn scan_span(ancestry: &Vec<ProcessAncestor>, k: usize, markers: &Vec<String>) -> (r: (bool, bool))
    requires
        k <= ancestry@.len(),
    ensures
        r.0 == span_crosses_marker(ancestry@.take(k as int), texts_of(markers@).to_set()),
        r.1 == span_unresolved(ancestry@.take(k as int)),
{
    let ghost sp = ancestry@.take(k as int);
    let mut crosses = false;
    let mut gap = false;
    let mut i: usize = 0;
    while i < k
        invariant
            i <= k,
            k <= ancestry@.len(),
            sp == ancestry@.take(k as int),
            crosses == exists|j: int|
                0 <= j < i && usable((#[trigger] sp[j]).executable_path) && texts_of(
                    markers@,
                ).to_set().contains(sp[j].executable_path->value@),
            gap == exists|j: int| 0 <= j < i && !usable((#[trigger] sp[j]).executable_path),
        decreases k - i,
    {
        assert(sp[i as int] == ancestry@[i as int]);
        match &ancestry[i].executable_path {
            Evidence::Present { value, source } => match source {
                EvidenceSource::SelfAsserted => {
                    gap = true;
                },
                _ => {
                    if contains_text(markers, value.as_str()) {
                        crosses = true;
                    }
                },
            },
            _ => {
                gap = true;
            },
        }
        i = i + 1;
    }
    (crosses, gap)
}

/// The bound at position `i` of the declaration order.
fn bound_at_index(i: usize) -> (b: ExceededBound)
    requires
        i < 10,
    ensures
        b == bound_at(i as int),
{
    if i == 0 {
        ExceededBound::Resource
    } else if i == 1 {
        ExceededBound::Action
    } else if i == 2 {
        ExceededBound::Depth
    } else if i == 3 {
        ExceededBound::Duration
    } else if i == 4 {
        ExceededBound::HolderLiveness
    } else if i == 5 {
        ExceededBound::AncestryLinkage
    } else if i == 6 {
        ExceededBound::OwnerUid
    } else if i == 7 {
        ExceededBound::CgroupPath
    } else if i == 8 {
        ExceededBound::SessionKey
    } else {
        ExceededBound::TrustTransition
    }
}

/// The bounds at the positions where `flags` holds.
fn collect_exceeded(flags: &Vec<bool>) -> (r: Vec<ExceededBound>)
    requires
        flags@.len() <= 10,
    ensures
        r@ == bounds_where(flags@),
{
    let mut r: Vec<ExceededBound> = Vec::new();
    let mut i: usize = 0;
    while i < flags.len()
        invariant
            i <= flags@.len(),
            flags@.len() <= 10,
            r@ == bounds_where(flags@.take(i as int)),
        decreases flags.len() - i,
    {
        proof {
            assert(flags@.take(i + 1).drop_last() =~= flags@.take(i as int));
        }
        if flags[i] {
            r.push(bound_at_index(i));
        }
        i = i + 1;
    }
    assert(flags@.take(i as int) =~= flags@);
    r
}

/// The bounds `request` exceeds that involve neither ancestry nor the
/// requester's evidence: resource, action, depth, remaining time.
fn scope_flags(
    grant: &DelegationGrant,
    bounds: &DelegationBounds,
    request: &ComputeRequest,
    now: MonotonicTime,
) -> (r: (bool, bool, bool, bool))
    ensures
        r.0 == !grant.spec_scope().spec_resources().contains(request.resource@),
        r.1 == (!grant.spec_scope().spec_actions().contains(request.action)
            || !bounds@.delegable_actions.contains(request.action)),
        r.2 == (grant.spec_depth() + 1 > bounds@.max_depth),
        r.3 == (now@ >= grant.spec_not_after()@ || grant.spec_not_after()@ - now@
            < bounds@.min_remaining),
{
    let resource = !grant.scope.contains_resource(&request.resource);
    let action = !contains_action(&grant.scope.actions, request.action) || !contains_action(
        &bounds.delegable_actions,
        request.action,
    );
    let depth = grant.depth as u16 + 1 > bounds.max_depth as u16;
    let duration = now.as_nanos() >= grant.not_after.as_nanos() || ((grant.not_after.as_nanos()
        - now.as_nanos()) as u128) < bounds.min_remaining.as_nanos();
    (resource, action, depth, duration)
}

/// The session-key and cgroup bounds, when the bounds require them.
fn context_flags(
    grant: &DelegationGrant,
    bounds: &DelegationBounds,
    requester: &ExecutionContext,
    session_key: &Evidence<SessionKey>,
) -> (r: (bool, bool))
    ensures
        r.0 == (bounds@.require_same_session && match grant.spec_session_key() {
            None => true,
            Some(k) => usable(*session_key) && session_key->value != k,
        }),
        r.1 == (bounds@.require_same_cgroup && match grant.spec_cgroup_path() {
            None => requester.cgroup_path is Present,
            Some(c) => usable(requester.cgroup_path) && requester.cgroup_path->value@ != c@,
        }),
{
    let session = bounds.require_same_session && match grant.session_key {
        None => true,
        Some(k) => match usable_value(session_key) {
            Some(observed) => *observed != k,
            None => false,
        },
    };
    let cgroup = bounds.require_same_cgroup && match &grant.cgroup_path {
        None => requester.cgroup_path.is_present(),
        Some(c) => match usable_value(&requester.cgroup_path) {
            Some(observed) => !crate::text::str_eq(observed.as_str(), c.as_str()),
            None => false,
        },
    };
    (session, cgroup)
}

/// The reason of the first unconfirmable check, given what the checks
/// observed.
fn gap_reason(
    grant: &DelegationGrant,
    bounds: &DelegationBounds,
    requester: &ExecutionContext,
    session_key: &Evidence<SessionKey>,
    observed_holder: &WorkloadIdentity,
    holder_seen: IdentityComparison,
    linked: bool,
    link_unresolved: bool,
    span_gap: bool,
) -> (r: Option<&'static str>)
    requires
        holder_seen == spec_compare_process(grant.spec_holder(), *observed_holder),
        linked == first_linked(grant.spec_holder(), requester.workload.ancestry@) is Some,
        link_unresolved == linkage_unresolved(grant.spec_holder(), requester.workload.ancestry@),
        span_gap == span_unresolved(span(*grant, *requester)),
    ensures
        match first_gap(*grant, bounds@, *requester, *session_key, *observed_holder) {
            Some(g) => r matches Some(s) && s@ == g,
            None => r is None,
        },
{
    proof {
        reveal_strlit("grant holder liveness could not be confirmed");
        reveal_strlit("ancestry linkage to the grant holder could not be confirmed");
        reveal_strlit("requester uid evidence is unusable");
        reveal_strlit("ancestor executable path evidence in the delegation span is unusable");
        reveal_strlit("requester session-key evidence is unusable");
        reveal_strlit("requester cgroup evidence is unusable");
    }
    if holder_seen == IdentityComparison::Indeterminate {
        Some("grant holder liveness could not be confirmed")
    } else if !linked && link_unresolved {
        Some("ancestry linkage to the grant holder could not be confirmed")
    } else if usable_value(&requester.workload.uid).is_none() {
        Some("requester uid evidence is unusable")
    } else if span_gap {
        Some("ancestor executable path evidence in the delegation span is unusable")
    } else if bounds.require_same_session && grant.session_key.is_some() && usable_value(
        session_key,
    ).is_none() {
        Some("requester session-key evidence is unusable")
    } else if bounds.require_same_cgroup && grant.cgroup_path.is_some() && usable_value(
        &requester.cgroup_path,
    ).is_none() {
        Some("requester cgroup evidence is unusable")
    } else {
        None
    }
}

/// Whether `requester` — freshly observed, with `session_key` evidence
/// and `observed_holder` freshly observed in the grant holder's place —
/// may run `request` under `grant` at `now`. Ancestry only corroborates
/// or rejects: admission also needs the request inside the parent lease's
/// scope, an allowed depth, and enough time left on the parent.
pub fn delegated_admission(
    grant: &DelegationGrant,
    bounds: &DelegationBounds,
    requester: &ExecutionContext,
    session_key: &Evidence<SessionKey>,
    observed_holder: &WorkloadIdentity,
    request: &ComputeRequest,
    now: MonotonicTime,
) -> (v: DelegationVerdict)
    ensures
        v@ == spec_admission(
            *grant,
            bounds@,
            *requester,
            *session_key,
            *observed_holder,
            *request,
            now,
        ),
{
    let ghost g = *grant;
    let ghost bv = bounds@;
    let ghost rq = *requester;
    let ghost sk = *session_key;
    let ghost oh = *observed_holder;
    let ghost req = *request;
    let holder_seen = grant.holder.compare_process(observed_holder);
    let (link, link_unresolved) = find_holder(&grant.holder, &requester.workload.ancestry);
    let (crosses, span_gap) = match link {
        Some(k) => scan_span(&requester.workload.ancestry, k, &bounds.transition_markers),
        None => (false, false),
    };
    proof {
        assert(span(g, rq) == match link {
            Some(k) => requester.workload.ancestry@.take(k as int),
            None => Seq::<ProcessAncestor>::empty(),
        });
        if link is None {
            assert(!span_crosses_marker(span(g, rq), bv.transition_markers));
            assert(!span_unresolved(span(g, rq)));
        }
    }
    let (resource_x, action_x, depth_x, duration_x) = scope_flags(grant, bounds, request, now);
    let (session_x, cgroup_x) = context_flags(grant, bounds, requester, session_key);
    let holder_x = match holder_seen {
        IdentityComparison::Different => true,
        _ => false,
    };
    let linkage_x = link.is_none() && !link_unresolved;
    let uid_x = match usable_value(&requester.workload.uid) {
        Some(u) => *u != grant.owner_uid,
        None => false,
    };
    let mut flags: Vec<bool> = Vec::new();
    flags.push(resource_x);
    flags.push(action_x);
    flags.push(depth_x);
    flags.push(duration_x);
    flags.push(holder_x);
    flags.push(linkage_x);
    flags.push(uid_x);
    flags.push(cgroup_x);
    flags.push(session_x);
    flags.push(crosses);
    proof {
        assert(flags@ =~= Seq::new(
            10,
            |i: int| exceeds(bound_at(i), g, bv, rq, sk, oh, req, now),
        ));
    }
    let exceeded = collect_exceeded(&flags);
    if exceeded.len() > 0 {
        return DelegationVerdict::NotAdmitted { exceeded };
    }
    let reason = gap_reason(
        grant,
        bounds,
        requester,
        session_key,
        observed_holder,
        holder_seen,
        link.is_some(),
        link_unresolved,
        span_gap,
    );
    match reason {
        Some(r) => DelegationVerdict::Indeterminate { reason: string_of(r) },
        None => {
            proof {
                lemma_bounds_where_empty(flags@);
                assert(!flags@[2]);
            }
            let not_after = match now.checked_add(bounds.max_child_ttl) {
                Some(t) => t.earliest(grant.not_after),
                None => grant.not_after,
            };
            DelegationVerdict::Admitted {
                parent: grant.lease_id.duplicate(),
                depth: grant.depth + 1,
                not_after,
            }
        },
    }
}

/// Growing an ancestry past a confirmed holder keeps that holder first.
proof fn lemma_first_linked_extends(
    holder: WorkloadIdentity,
    ancestry: Seq<ProcessAncestor>,
    j: int,
    k: int,
)
    requires
        0 <= j <= ancestry.len(),
        first_linked(holder, ancestry.take(j)) == Some(k),
    ensures
        first_linked(holder, ancestry) == Some(k),
    decreases ancestry.len() - j,
{
    if j == ancestry.len() {
        assert(ancestry.take(j) =~= ancestry);
    } else {
        assert(ancestry.take(j + 1).drop_last() =~= ancestry.take(j));
        lemma_first_linked_extends(holder, ancestry, j + 1, k);
    }
}

/// The first confirmed holder is found within the prefix ending at it.
proof fn lemma_first_linked_prefix(holder: WorkloadIdentity, ancestry: Seq<ProcessAncestor>, k: int)
    requires
        first_linked(holder, ancestry) == Some(k),
    ensures
        0 <= k < ancestry.len(),
        first_linked(holder, ancestry.take(k + 1)) == Some(k),
    decreases ancestry.len(),
{
    if ancestry.len() > 0 {
        let d = ancestry.drop_last();
        if first_linked(holder, d) is Some {
            lemma_first_linked_prefix(holder, d, k);
            assert(d.take(k + 1) =~= ancestry.take(k + 1));
        } else {
            assert(ancestry.take(k + 1) =~= ancestry);
        }
    }
}

/// Ancestry only ever corroborates: an admitted request was confirmed on
/// every count — the holder is still the same live process and sits in
/// the requester's ancestry, the requester's uid is usable and is the
/// grant's owner, the request is inside the parent lease's scope and
/// delegable, the child depth is within bounds, and the parent has at
/// least `min_remaining` left.
pub proof fn law_admission_is_fully_corroborated(
    grant: DelegationGrant,
    bounds: DelegationBoundsView,
    requester: ExecutionContext,
    session_key: Evidence<SessionKey>,
    observed_holder: WorkloadIdentity,
    request: ComputeRequest,
    now: MonotonicTime,
)
    requires
        spec_admission(grant, bounds, requester, session_key, observed_holder, request, now)
            is Admitted,
    ensures
        spec_compare_process(grant.spec_holder(), observed_holder) == IdentityComparison::Same,
        first_linked(grant.spec_holder(), requester.workload.ancestry@) is Some,
        usable(requester.workload.uid) && requester.workload.uid->value == grant.spec_owner_uid(),
        grant.spec_scope().spec_resources().contains(request.resource@),
        grant.spec_scope().spec_actions().contains(request.action),
        bounds.delegable_actions.contains(request.action),
        grant.spec_depth() + 1 <= bounds.max_depth,
        now@ < grant.spec_not_after()@,
        grant.spec_not_after()@ - now@ >= bounds.min_remaining,
{
    let flags = Seq::new(
        10,
        |i: int|
            exceeds(bound_at(i), grant, bounds, requester, session_key, observed_holder, request, now),
    );
    lemma_bounds_where_empty(flags);
    assert(!flags[0] && !flags[1] && !flags[2] && !flags[3] && !flags[4] && !flags[5]
        && !flags[6]);
}

/// A delegated child never outlives its parent lease, nor runs longer
/// than `max_child_ttl`, and is always one level deeper than its grant.
pub proof fn law_child_never_outlives_parent(
    grant: DelegationGrant,
    bounds: DelegationBoundsView,
    requester: ExecutionContext,
    session_key: Evidence<SessionKey>,
    observed_holder: WorkloadIdentity,
    request: ComputeRequest,
    now: MonotonicTime,
)
    requires
        spec_admission(grant, bounds, requester, session_key, observed_holder, request, now)
            is Admitted,
    ensures
        ({
            let v = spec_admission(
                grant,
                bounds,
                requester,
                session_key,
                observed_holder,
                request,
                now,
            );
            &&& v->Admitted_not_after <= grant.spec_not_after()@
            &&& v->Admitted_not_after <= now@ + bounds.max_child_ttl
            &&& v->Admitted_depth == grant.spec_depth() + 1
            &&& v->Admitted_parent == grant.spec_lease_id()
        }),
{
    law_admission_is_fully_corroborated(
        grant,
        bounds,
        requester,
        session_key,
        observed_holder,
        request,
        now,
    );
}

/// Ancestors above the linked holder never influence admission: two
/// requesters that differ only in ancestry beyond the first confirmed
/// holder get the same verdict.
pub proof fn law_ancestry_above_holder_is_ignored(
    grant: DelegationGrant,
    bounds: DelegationBoundsView,
    first: ExecutionContext,
    second: ExecutionContext,
    session_key: Evidence<SessionKey>,
    observed_holder: WorkloadIdentity,
    request: ComputeRequest,
    now: MonotonicTime,
    k: int,
)
    requires
        first_linked(grant.spec_holder(), first.workload.ancestry@) == Some(k),
        0 <= k < second.workload.ancestry@.len(),
        second.workload.ancestry@.take(k + 1) == first.workload.ancestry@.take(k + 1),
        second.workload.pid == first.workload.pid,
        second.workload.process_start == first.workload.process_start,
        second.workload.uid == first.workload.uid,
        second.cgroup_path == first.cgroup_path,
    ensures
        spec_admission(grant, bounds, first, session_key, observed_holder, request, now)
            == spec_admission(grant, bounds, second, session_key, observed_holder, request, now),
{
    let h = grant.spec_holder();
    lemma_first_linked_prefix(h, first.workload.ancestry@, k);
    lemma_first_linked_extends(h, second.workload.ancestry@, k + 1, k);
    assert(span(grant, first) =~= span(grant, second)) by {
        assert(first.workload.ancestry@.take(k) =~= first.workload.ancestry@.take(k + 1).take(k));
        assert(second.workload.ancestry@.take(k) =~= second.workload.ancestry@.take(k + 1).take(
            k,
        ));
    }
    let f1 = Seq::new(
        10,
        |i: int| exceeds(bound_at(i), grant, bounds, first, session_key, observed_holder, request, now),
    );
    let f2 = Seq::new(
        10,
        |i: int|
            exceeds(bound_at(i), grant, bounds, second, session_key, observed_holder, request, now),
    );
    assert(f1 =~= f2);
}


/// A flagged position's bound is among the selected bounds.
proof fn lemma_bounds_where_contains(flags: Seq<bool>, i: int)
    requires
        0 <= i < flags.len(),
        flags[i],
    ensures
        bounds_where(flags).contains(bound_at(i)),
    decreases flags.len(),
{
    if i == flags.len() - 1 {
        assert(bounds_where(flags).last() == bound_at(i));
    } else {
        assert(flags.drop_last()[i] == flags[i]);
        lemma_bounds_where_contains(flags.drop_last(), i);
        let rest = bounds_where(flags.drop_last());
        let k = choose|k: int| 0 <= k < rest.len() && rest[k] == bound_at(i);
        if flags.last() {
            assert(bounds_where(flags)[k] == bound_at(i));
        }
    }
}

/// Law (same session is enforced): when the bounds require the same
/// session and the grant recorded session key `k`, a requester whose
/// session-key evidence is usable (present, not self-asserted) and names
/// another key is never admitted — the refusal lists `SessionKey` among
/// the exceeded bounds.
pub proof fn law_other_session_is_refused(
    grant: DelegationGrant,
    bounds: DelegationBoundsView,
    requester: ExecutionContext,
    session_key: Evidence<SessionKey>,
    observed_holder: WorkloadIdentity,
    request: ComputeRequest,
    now: MonotonicTime,
)
    requires
        bounds.require_same_session,
        grant.spec_session_key() is Some,
        session_key is Present,
        session_key->source != EvidenceSource::SelfAsserted,
        session_key->value != grant.spec_session_key()->0,
    ensures
        spec_admission(grant, bounds, requester, session_key, observed_holder, request, now) matches DelegationView::NotAdmitted(
            exceeded,
        ) && exceeded.contains(ExceededBound::SessionKey),
{
    let flags = Seq::new(
        10,
        |i: int|
            exceeds(
                bound_at(i),
                grant,
                bounds,
                requester,
                session_key,
                observed_holder,
                request,
                now,
            ),
    );
    assert(flags[8]);
    lemma_bounds_where_contains(flags, 8);
    assert(exceeded_bounds(grant, bounds, requester, session_key, observed_holder, request, now)
        == bounds_where(flags));
}

} // verus!
