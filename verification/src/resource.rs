//! Protected resource domain: resource identity, per-capability support
//! states, memory topology, and the `ComputeRequest`/`Action`/
//! `EnforcementResult` seams later modules build on.
//!
//! Vendor and kind are opaque string tags, never closed enums: an
//! arbitrary tag is carried through unchanged.

use vstd::prelude::*;

use crate::text::{seq_lt, compare_strs, string_of, Order};

verus! {

/// How well a backend supports a given [`Capability`] for a resource.
#[derive(Debug, Clone, Copy, PartialEq, Eq, Structural, PartialOrd, Ord, Hash)]
pub enum SupportState {
    /// Fully implemented and proven for this resource.
    Supported,
    /// Works in some but not all cases.
    Partial,
    /// Determined not to work for this resource.
    Unsupported,
    /// No determination made yet; also the state of any capability that a
    /// [`ResourceCapabilities`] does not list.
    NotEvaluated,
}

impl SupportState {
    /// True only for [`SupportState::Supported`].
    pub fn is_proven(self) -> (b: bool)
        ensures
            b == (self == SupportState::Supported),
    {
        match self {
            SupportState::Supported => true,
            _ => false,
        }
    }
}

/// The vendor that owns a protected resource, as an opaque tag.
#[derive(Debug, Clone, PartialEq, Eq, PartialOrd, Ord, Hash)]
pub struct ResourceVendor(String);

impl View for ResourceVendor {
    type V = Seq<char>;

    closed spec fn view(&self) -> Seq<char> {
        self.0@
    }
}

impl ResourceVendor {
    pub fn new(tag: &str) -> (v: Self)
        ensures
            v@ == tag@,
    {
        ResourceVendor(string_of(tag))
    }

    pub fn as_str(&self) -> (s: &str)
        ensures
            s@ == self@,
    {
        self.0.as_str()
    }

    /// Tag used by the deterministic fake compute backend.
    pub fn fake() -> (v: Self)
        ensures
            v@ == "fake"@,
    {
        ResourceVendor(string_of("fake"))
    }

    pub fn clone_tag(&self) -> (v: Self)
        ensures
            v@ == self@,
    {
        ResourceVendor(self.0.clone())
    }
}

/// The class of protected resource, as an opaque tag.
#[derive(Debug, Clone, PartialEq, Eq, PartialOrd, Ord, Hash)]
pub struct ResourceKind(String);

impl View for ResourceKind {
    type V = Seq<char>;

    closed spec fn view(&self) -> Seq<char> {
        self.0@
    }
}

impl ResourceKind {
    pub fn new(tag: &str) -> (k: Self)
        ensures
            k@ == tag@,
    {
        ResourceKind(string_of(tag))
    }

    pub fn as_str(&self) -> (s: &str)
        ensures
            s@ == self@,
    {
        self.0.as_str()
    }

    pub fn gpu() -> (k: Self)
        ensures
            k@ == "gpu"@,
    {
        ResourceKind(string_of("gpu"))
    }

    pub fn clone_tag(&self) -> (k: Self)
        ensures
            k@ == self@,
    {
        ResourceKind(self.0.clone())
    }
}

/// Stable identity for one protected resource instance. `local_id` is
/// whatever stable identifier the backend assigns; it is never parsed.
#[derive(Debug, Clone, PartialEq, Eq, PartialOrd, Ord, Hash)]
pub struct ResourceIdentity {
    pub vendor: ResourceVendor,
    pub kind: ResourceKind,
    pub local_id: String,
}

/// The abstract value of a [`ResourceIdentity`]: its three tags.
pub struct ResourceIdentityView {
    pub vendor: Seq<char>,
    pub kind: Seq<char>,
    pub local_id: Seq<char>,
}

impl View for ResourceIdentity {
    type V = ResourceIdentityView;

    open spec fn view(&self) -> ResourceIdentityView {
        ResourceIdentityView { vendor: self.vendor@, kind: self.kind@, local_id: self.local_id@ }
    }
}

/// The order of `ResourceIdentity` values: by vendor, then kind, then
/// local id, each compared by code point.
pub open spec fn resource_lt(a: ResourceIdentityView, b: ResourceIdentityView) -> bool {
    ||| seq_lt(a.vendor, b.vendor)
    ||| (a.vendor == b.vendor && seq_lt(a.kind, b.kind))
    ||| (a.vendor == b.vendor && a.kind == b.kind && seq_lt(a.local_id, b.local_id))
}

/// `resource_lt` never holds both ways and never relates a value to itself.
pub proof fn lemma_resource_lt_asymmetric(a: ResourceIdentityView, b: ResourceIdentityView)
    ensures
        resource_lt(a, b) ==> !resource_lt(b, a),
        !resource_lt(a, a),
{
    crate::text::lemma_seq_lt_asymmetric(a.vendor, b.vendor);
    crate::text::lemma_seq_lt_asymmetric(a.kind, b.kind);
    crate::text::lemma_seq_lt_asymmetric(a.local_id, b.local_id);
}

/// `resource_lt` is transitive.
pub proof fn lemma_resource_lt_transitive(
    a: ResourceIdentityView,
    b: ResourceIdentityView,
    c: ResourceIdentityView,
)
    requires
        resource_lt(a, b),
        resource_lt(b, c),
    ensures
        resource_lt(a, c),
{
    if seq_lt(a.vendor, b.vendor) && seq_lt(b.vendor, c.vendor) {
        crate::text::lemma_seq_lt_transitive(a.vendor, b.vendor, c.vendor);
    }
    if a.vendor == b.vendor && b.vendor == c.vendor && seq_lt(a.kind, b.kind) && seq_lt(
        b.kind,
        c.kind,
    ) {
        crate::text::lemma_seq_lt_transitive(a.kind, b.kind, c.kind);
    }
    if a.vendor == b.vendor && b.vendor == c.vendor && a.kind == b.kind && b.kind == c.kind
        && seq_lt(a.local_id, b.local_id) && seq_lt(b.local_id, c.local_id) {
        crate::text::lemma_seq_lt_transitive(a.local_id, b.local_id, c.local_id);
    }
}

impl ResourceIdentity {
    /// Whether `self` and `other` name the same resource.
    pub fn same(&self, other: &ResourceIdentity) -> (b: bool)
        ensures
            b == (self@ == other@),
    {
        let r = self.vendor.0 == other.vendor.0 && self.kind.0 == other.kind.0 && self.local_id
            == other.local_id;
        proof {
            if self.vendor@ == other.vendor@ && self.kind@ == other.kind@ && self.local_id@
                == other.local_id@ {
                assert(self@ == other@);
            }
        }
        r
    }

    /// Three-way comparison in [`resource_lt`] order.
    pub fn compare(&self, other: &ResourceIdentity) -> (r: Order)
        ensures
            r == Order::Less <==> resource_lt(self@, other@),
            r == Order::Greater <==> resource_lt(other@, self@),
            r == Order::Equal <==> self@ == other@,
    {
        proof {
            crate::text::lemma_seq_lt_asymmetric(self.vendor@, other.vendor@);
            crate::text::lemma_seq_lt_asymmetric(self.kind@, other.kind@);
            crate::text::lemma_seq_lt_asymmetric(self.local_id@, other.local_id@);
            crate::text::lemma_seq_lt_asymmetric(other.vendor@, self.vendor@);
            crate::text::lemma_seq_lt_asymmetric(other.kind@, self.kind@);
            crate::text::lemma_seq_lt_asymmetric(other.local_id@, self.local_id@);
        }
        match compare_strs(self.vendor.0.as_str(), other.vendor.0.as_str()) {
            Order::Less => Order::Less,
            Order::Greater => Order::Greater,
            Order::Equal => match compare_strs(self.kind.0.as_str(), other.kind.0.as_str()) {
                Order::Less => Order::Less,
                Order::Greater => Order::Greater,
                Order::Equal => compare_strs(self.local_id.as_str(), other.local_id.as_str()),
            },
        }
    }

    /// A copy with the same three tags.
    pub fn duplicate(&self) -> (r: ResourceIdentity)
        ensures
            r@ == self@,
    {
        ResourceIdentity {
            vendor: self.vendor.clone_tag(),
            kind: self.kind.clone_tag(),
            local_id: self.local_id.clone(),
        }
    }
}

/// The nine independently evaluated capabilities a backend may support.
/// Declaration order fixes the order capabilities are listed in.
#[derive(Debug, Clone, Copy, PartialEq, Eq, Structural, PartialOrd, Ord, Hash)]
pub enum Capability {
    DiscoverResource,
    ObserveResource,
    ObserveWorkload,
    AttributeWorkload,
    Authorize,
    ControlledLaunch,
    DeviceEnforce,
    DeviceRevoke,
    Attest,
}

/// Number of [`Capability`] variants.
pub const CAPABILITY_COUNT: usize = 9;

/// Position of a capability in declaration order.
pub open spec fn capability_rank(c: Capability) -> int {
    match c {
        Capability::DiscoverResource => 0,
        Capability::ObserveResource => 1,
        Capability::ObserveWorkload => 2,
        Capability::AttributeWorkload => 3,
        Capability::Authorize => 4,
        Capability::ControlledLaunch => 5,
        Capability::DeviceEnforce => 6,
        Capability::DeviceRevoke => 7,
        Capability::Attest => 8,
    }
}

/// The capability at position `i` in declaration order.
pub open spec fn capability_at(i: int) -> Capability {
    if i == 0 {
        Capability::DiscoverResource
    } else if i == 1 {
        Capability::ObserveResource
    } else if i == 2 {
        Capability::ObserveWorkload
    } else if i == 3 {
        Capability::AttributeWorkload
    } else if i == 4 {
        Capability::Authorize
    } else if i == 5 {
        Capability::ControlledLaunch
    } else if i == 6 {
        Capability::DeviceEnforce
    } else if i == 7 {
        Capability::DeviceRevoke
    } else {
        Capability::Attest
    }
}

impl Capability {
    pub fn rank(self) -> (r: usize)
        ensures
            r == capability_rank(self),
            r < CAPABILITY_COUNT,
            capability_at(r as int) == self,
    {
        match self {
            Capability::DiscoverResource => 0,
            Capability::ObserveResource => 1,
            Capability::ObserveWorkload => 2,
            Capability::AttributeWorkload => 3,
            Capability::Authorize => 4,
            Capability::ControlledLaunch => 5,
            Capability::DeviceEnforce => 6,
            Capability::DeviceRevoke => 7,
            Capability::Attest => 8,
        }
    }

    pub fn at(i: usize) -> (c: Capability)
        requires
            i < CAPABILITY_COUNT,
        ensures
            c == capability_at(i as int),
            capability_rank(c) == i,
    {
        if i == 0 {
            Capability::DiscoverResource
        } else if i == 1 {
            Capability::ObserveResource
        } else if i == 2 {
            Capability::ObserveWorkload
        } else if i == 3 {
            Capability::AttributeWorkload
        } else if i == 4 {
            Capability::Authorize
        } else if i == 5 {
            Capability::ControlledLaunch
        } else if i == 6 {
            Capability::DeviceEnforce
        } else if i == 7 {
            Capability::DeviceRevoke
        } else {
            Capability::Attest
        }
    }
}

/// The support state a backend reports for each capability. A capability
/// with no recorded entry is [`SupportState::NotEvaluated`] — absence
/// never means "supported". Two values are equal only when they record
/// the same entries (an absent entry differs from an explicit
/// `NotEvaluated` one).
#[derive(Debug, PartialEq, Eq)]
pub struct ResourceCapabilities {
    support: Vec<Option<SupportState>>,
}

impl View for ResourceCapabilities {
    /// One slot per capability, in declaration order.
    type V = Seq<Option<SupportState>>;

    closed spec fn view(&self) -> Seq<Option<SupportState>> {
        self.support@
    }
}

/// The recorded entry for `c`, if any.
pub open spec fn recorded(caps: Seq<Option<SupportState>>, c: Capability) -> Option<SupportState> {
    caps[capability_rank(c)]
}

/// The effective state of `c`: its recorded entry, else `NotEvaluated`.
pub open spec fn spec_state_of(caps: Seq<Option<SupportState>>, c: Capability) -> SupportState {
    match recorded(caps, c) {
        Some(s) => s,
        None => SupportState::NotEvaluated,
    }
}

/// The entry table after applying `entries` in order, a later entry for
/// the same capability replacing an earlier one.
pub open spec fn apply_entries(
    base: Seq<Option<SupportState>>,
    entries: Seq<(Capability, SupportState)>,
) -> Seq<Option<SupportState>>
    decreases entries.len(),
{
    if entries.len() == 0 {
        base
    } else {
        let prev = apply_entries(base, entries.drop_last());
        let last = entries.last();
        prev.update(capability_rank(last.0), Some(last.1))
    }
}

/// The table with no recorded entries.
pub open spec fn empty_table() -> Seq<Option<SupportState>> {
    Seq::new(9, |i: int| None::<SupportState>)
}

/// A slot table with no recorded entry.
fn empty_slots() -> (v: Vec<Option<SupportState>>)
    ensures
        v@ == empty_table(),
{
    let mut support: Vec<Option<SupportState>> = Vec::new();
    let mut i: usize = 0;
    while i < CAPABILITY_COUNT
        invariant
            i <= CAPABILITY_COUNT,
            support@.len() == i,
            forall|j: int| 0 <= j < i ==> support@[j] is None,
        decreases CAPABILITY_COUNT - i,
    {
        support.push(None);
        i = i + 1;
    }
    assert(support@ =~= empty_table());
    support
}

impl ResourceCapabilities {
    #[verifier::type_invariant]
    closed spec fn wf(self) -> bool {
        self.support@.len() == CAPABILITY_COUNT
    }

    /// No capability recorded.
    pub fn empty() -> (c: Self)
        ensures
            c@ == empty_table(),
    {
        ResourceCapabilities { support: empty_slots() }
    }

    /// Every listed capability is `Supported`; anything not listed has no
    /// entry.
    pub fn new(supported: Vec<Capability>) -> (c: Self)
        ensures
            forall|k: Capability|
                #[trigger] recorded(c@, k) == if supported@.contains(k) {
                    Some(SupportState::Supported)
                } else {
                    None
                },
    {
        let mut slots = empty_slots();
        let mut i: usize = 0;
        while i < supported.len()
            invariant
                i <= supported.len(),
                slots@.len() == CAPABILITY_COUNT,
                forall|k: Capability|
                    #[trigger] recorded(slots@, k) == if supported@.subrange(0, i as int).contains(
                        k,
                    ) {
                        Some(SupportState::Supported)
                    } else {
                        None
                    },
            decreases supported.len() - i,
        {
            let c = supported[i];
            let r = c.rank();
            let ghost old_slots = slots@;
            slots.set(r, Some(SupportState::Supported));
            proof {
                assert(slots@ == old_slots.update(r as int, Some(SupportState::Supported)));
                assert forall|k: Capability|
                    #[trigger] recorded(slots@, k) == if supported@.subrange(
                        0,
                        i + 1,
                    ).contains(k) {
                        Some(SupportState::Supported)
                    } else {
                        None
                    } by {
                    let s1 = supported@.subrange(0, i as int);
                    let s2 = supported@.subrange(0, i + 1);
                    assert(s2 =~= s1.push(c));
                    assert(0 <= capability_rank(k) < CAPABILITY_COUNT);
                    if k == c {
                        assert(s2[i as int] == c);
                        assert(s2.contains(k));
                        assert(recorded(slots@, k) == Some(SupportState::Supported));
                    } else {
                        assert(capability_rank(k) != capability_rank(c)) by {
                            if capability_rank(k) == capability_rank(c) {
                                assert(capability_at(capability_rank(k)) == k);
                            }
                        }
                        assert(s1.contains(k) == s2.contains(k)) by {
                            if s2.contains(k) {
                                let j = choose|j: int| 0 <= j < s2.len() && s2[j] == k;
                                assert(j < i);
                                assert(s1[j] == k);
                            }
                            if s1.contains(k) {
                                let j = choose|j: int| 0 <= j < s1.len() && s1[j] == k;
                                assert(s2[j] == k);
                            }
                        }
                        assert(recorded(slots@, k) == recorded(old_slots, k));
                    }
                }
            }
            i = i + 1;
        }
        assert(supported@.subrange(0, supported.len() as int) =~= supported@);
        ResourceCapabilities { support: slots }
    }

    /// Explicit per-capability states; a later entry for the same
    /// capability replaces an earlier one.
    pub fn from_states(states: Vec<(Capability, SupportState)>) -> (c: Self)
        ensures
            c@ == apply_entries(empty_table(), states@),
    {
        let mut slots = empty_slots();
        let mut i: usize = 0;
        while i < states.len()
            invariant
                i <= states.len(),
                slots@ == apply_entries(empty_table(), states@.subrange(0, i as int)),
                slots@.len() == CAPABILITY_COUNT,
            decreases states.len() - i,
        {
            let (c, s) = states[i];
            let r = c.rank();
            slots.set(r, Some(s));
            assert(states@.subrange(0, i + 1).drop_last() =~= states@.subrange(0, i as int));
            i = i + 1;
        }
        assert(states@.subrange(0, states.len() as int) =~= states@);
        ResourceCapabilities { support: slots }
    }

    /// The recorded state of `capability`, or `NotEvaluated` when absent.
    pub fn state_of(&self, capability: Capability) -> (s: SupportState)
        ensures
            s == spec_state_of(self@, capability),
    {
        proof {
            use_type_invariant(self);
        }
        match self.support[capability.rank()] {
            Some(s) => s,
            None => SupportState::NotEvaluated,
        }
    }

    /// True iff `capability`'s state is exactly `Supported`; `Partial`,
    /// `Unsupported` and an absent entry are all `false`.
    pub fn supports(&self, capability: Capability) -> (b: bool)
        ensures
            b == (spec_state_of(self@, capability) == SupportState::Supported),
    {
        self.state_of(capability).is_proven()
    }

    /// The recorded entries, in capability declaration order.
    pub fn iter(&self) -> (v: Vec<(Capability, SupportState)>)
        ensures
            forall|i: int|
                0 <= i < v@.len() ==> recorded(self@, #[trigger] v@[i].0) == Some(v@[i].1),
            forall|i: int, j: int|
                0 <= i < j < v@.len() ==> capability_rank(#[trigger] v@[i].0) < capability_rank(
                    #[trigger] v@[j].0,
                ),
            forall|k: Capability|
                #[trigger] recorded(self@, k) is Some ==> exists|i: int|
                    0 <= i < v@.len() && #[trigger] v@[i].0 == k,
    {
        proof {
            use_type_invariant(self);
        }
        let mut v: Vec<(Capability, SupportState)> = Vec::new();
        let mut i: usize = 0;
        while i < CAPABILITY_COUNT
            invariant
                i <= CAPABILITY_COUNT,
                self@.len() == CAPABILITY_COUNT,
                forall|m: int|
                    0 <= m < v@.len() ==> recorded(self@, #[trigger] v@[m].0) == Some(v@[m].1),
                forall|m: int| 0 <= m < v@.len() ==> capability_rank(#[trigger] v@[m].0) < i,
                forall|m: int, n: int|
                    0 <= m < n < v@.len() ==> capability_rank(#[trigger] v@[m].0)
                        < capability_rank(#[trigger] v@[n].0),
                forall|k: Capability|
                    capability_rank(k) < i && #[trigger] recorded(self@, k) is Some ==> exists|
                        m: int,
                    | 0 <= m < v@.len() && #[trigger] v@[m].0 == k,
            decreases CAPABILITY_COUNT - i,
        {
            let c = Capability::at(i);
            let ghost old_v = v@;
            match self.support[i] {
                Some(s) => {
                    v.push((c, s));
                    proof {
                        assert(v@[v@.len() - 1].0 == c);
                    }
                },
                None => {},
            }
            proof {
                assert forall|k: Capability|
                    capability_rank(k) < i + 1 && #[trigger] recorded(self@, k) is Some implies exists|
                        m: int,
                    | 0 <= m < v@.len() && #[trigger] v@[m].0 == k by {
                    if capability_rank(k) == i {
                        assert(k == c) by {
                            assert(capability_at(capability_rank(k)) == k);
                        }
                        assert(v@[v@.len() - 1].0 == k);
                    } else {
                        let m = choose|m: int| 0 <= m < old_v.len() && #[trigger] old_v[m].0 == k;
                        assert(v@[m] == old_v[m]);
                    }
                }
            }
            i = i + 1;
        }
        proof {
            assert forall|k: Capability| #[trigger] recorded(self@, k) is Some implies exists|
                i: int,
            | 0 <= i < v@.len() && #[trigger] v@[i].0 == k by {
                assert(capability_rank(k) < CAPABILITY_COUNT);
            }
        }
        v
    }

    /// Whether two capability sets record exactly the same entries.
    pub fn same(&self, other: &ResourceCapabilities) -> (b: bool)
        ensures
            b == (self@ == other@),
    {
        proof {
            use_type_invariant(self);
            use_type_invariant(other);
        }
        let mut i: usize = 0;
        while i < CAPABILITY_COUNT
            invariant
                i <= CAPABILITY_COUNT,
                self@.len() == CAPABILITY_COUNT,
                other@.len() == CAPABILITY_COUNT,
                forall|j: int| 0 <= j < i ==> self@[j] == other@[j],
            decreases CAPABILITY_COUNT - i,
        {
            let same_slot = match (self.support[i], other.support[i]) {
                (None, None) => true,
                (Some(a), Some(b)) => a == b,
                _ => false,
            };
            if !same_slot {
                return false;
            }
            i = i + 1;
        }
        assert(self@ =~= other@);
        true
    }

    /// A copy recording the same entries.
    pub fn duplicate(&self) -> (c: ResourceCapabilities)
        ensures
            c@ == self@,
    {
        proof {
            use_type_invariant(self);
        }
        let mut support: Vec<Option<SupportState>> = Vec::new();
        let mut i: usize = 0;
        while i < CAPABILITY_COUNT
            invariant
                i <= CAPABILITY_COUNT,
                self@.len() == CAPABILITY_COUNT,
                support@ == self@.subrange(0, i as int),
            decreases CAPABILITY_COUNT - i,
        {
            support.push(self.support[i]);
            assert(support@ =~= self@.subrange(0, i + 1));
            i = i + 1;
        }
        assert(support@ =~= self@);
        ResourceCapabilities { support }
    }
}

impl Clone for ResourceCapabilities {
    fn clone(&self) -> (c: Self)
        ensures
            c@ == self@,
    {
        self.duplicate()
    }
}

impl Default for ResourceCapabilities {
    fn default() -> (c: Self)
        ensures
            c@ == empty_table(),
    {
        Self::empty()
    }
}

/// An accelerator's memory topology, reported truthfully rather than
/// assumed. `Unified` carries no byte count.
#[derive(Debug, Clone, Copy, PartialEq, Eq, Structural)]
pub enum AcceleratorMemory {
    /// Memory the accelerator owns exclusively, with a known size.
    Dedicated { total_bytes: u64 },
    /// Memory shared with the host.
    Unified,
    /// The backend cannot honestly report a memory model.
    NotReportable,
}

impl Default for AcceleratorMemory {
    fn default() -> (m: Self)
        ensures
            m == AcceleratorMemory::NotReportable,
    {
        AcceleratorMemory::NotReportable
    }
}

/// A protected resource: its identity, what a backend supports for it
/// right now, and its memory topology.
#[derive(Debug, Clone, PartialEq, Eq)]
pub struct ProtectedResource {
    pub identity: ResourceIdentity,
    pub capabilities: ResourceCapabilities,
    pub memory: AcceleratorMemory,
}

/// What a workload is asking to do. `Unknown` stands for any action this
/// build does not recognise.
#[derive(Debug, Clone, Copy, PartialEq, Eq, Structural, PartialOrd, Ord, Hash)]
pub enum Action {
    Compute,
    Unknown,
}

/// A request to perform `action` against one protected resource. It
/// carries no identity of who is asking.
#[derive(Debug, Clone, PartialEq, Eq)]
pub struct ComputeRequest {
    pub resource: ResourceIdentity,
    pub action: Action,
}

impl ComputeRequest {
    pub fn duplicate(&self) -> (r: ComputeRequest)
        ensures
            r.resource@ == self.resource@,
            r.action == self.action,
    {
        ComputeRequest { resource: self.resource.duplicate(), action: self.action }
    }
}

/// The outcome of attempting to enforce an authorization decision at the
/// device/backend layer. `Unsupported` is distinct from `Allowed`.
#[derive(Debug, Clone, PartialEq, Eq)]
pub enum EnforcementResult {
    Allowed,
    Denied { reason: String },
    Unsupported { capability: Capability },
    Error { message: String },
}

} // verus!
