//! Remembered authorization intent.
//!
//! An [`Approval`] records that a user once approved a stable launcher
//! context to *ask* for a specific `(resource, action)` — it is never a
//! grant. It gates whether a request may reach policy evaluation, never
//! what that evaluation returns.
//!
//! The on-disk rows ([`ApprovalEntry`], [`ApprovalDocument`]) are plain
//! data; [`ApprovalSet::from_document`] is the only way from them to
//! approvals. Every bound dimension is re-observed at [`recall`] time, in
//! one combined check, so stored bytes are evidence to re-validate, never
//! bare authority.

use vstd::prelude::*;

use crate::decimal::hex_bytes;
use crate::digest::{sha256_hex, sha256_of};
use crate::envelope::{UnsupportedVersion, Versioned};
use crate::identity::{Evidence, EvidenceSource, ExecutionContext};
use crate::policy::{PolicyId, PolicyProvenance, PolicyProvenanceView};
use crate::resource::{
    Action, ComputeRequest, ResourceCapabilities, ResourceIdentity, ResourceIdentityView,
    SupportState,
};
use crate::text::{push_utf8, str_eq, string_of, utf8};

verus! {

/// A content digest of one executable's bytes, computed by a platform
/// collector. Compared for equality only.
#[derive(Debug, Clone, PartialEq, Eq, Hash)]
pub struct ExecutableDigest(String);

impl View for ExecutableDigest {
    type V = Seq<char>;

    closed spec fn view(&self) -> Seq<char> {
        self.0@
    }
}

impl ExecutableDigest {
    pub fn new(digest: &str) -> (d: Self)
        ensures
            d@ == digest@,
    {
        ExecutableDigest(string_of(digest))
    }

    pub fn as_str(&self) -> (s: &str)
        ensures
            s@ == self@,
    {
        self.0.as_str()
    }

    /// A copy of this digest.
    pub fn duplicate(&self) -> (d: Self)
        ensures
            d@ == self@,
    {
        ExecutableDigest(self.0.clone())
    }
}

/// What was recorded: `Once` is consumed on first successful use;
/// `Remember` and `Deny` are durable until a material change or an
/// explicit removal.
#[derive(Debug, Clone, Copy, PartialEq, Eq, Structural)]
pub enum ApprovalDisposition {
    Once,
    Remember,
    Deny,
}

/// A deterministic digest of the binding an approval names, so the same
/// launcher, context and request give the same id across restarts.
/// Carries no entropy and is not a capability.
#[derive(Debug, Clone, PartialEq, Eq, PartialOrd, Ord, Hash)]
pub struct ApprovalId(String);

impl View for ApprovalId {
    type V = Seq<char>;

    closed spec fn view(&self) -> Seq<char> {
        self.0@
    }
}

/// The bytes of `x` in little-endian order.
pub open spec fn le_bytes_u32(x: u32) -> Seq<u8> {
    seq![
        (x % 256) as u8,
        ((x / 256) % 256) as u8,
        ((x / 65536) % 256) as u8,
        (x / 16777216) as u8,
    ]
}

/// `o`'s text, or the empty text.
pub open spec fn text_or_empty(o: Option<Seq<char>>) -> Seq<char> {
    match o {
        Some(t) => t,
        None => Seq::empty(),
    }
}

/// The bytes an approval id digests: the owner uid (little-endian), then
/// the launcher path, launcher digest, cgroup path, resource vendor, kind
/// and local id as UTF-8, each followed by a zero byte, then one byte
/// that is 1 for `Compute`. Capabilities and policy are compared at
/// recall time, never part of the identity.
pub open spec fn approval_id_preimage(
    owner_uid: u32,
    launcher_path: Seq<char>,
    launcher_digest: Option<Seq<char>>,
    cgroup_path: Option<Seq<char>>,
    resource: ResourceIdentityView,
    action: Action,
) -> Seq<u8> {
    le_bytes_u32(owner_uid) + seq![0u8] + utf8(launcher_path) + seq![0u8] + utf8(
        text_or_empty(launcher_digest),
    ) + seq![0u8] + utf8(text_or_empty(cgroup_path)) + seq![0u8] + utf8(resource.vendor)
        + seq![0u8] + utf8(resource.kind) + seq![0u8] + utf8(resource.local_id) + seq![0u8]
        + seq![if action == Action::Compute { 1u8 } else { 0u8 }]
}

/// The id text: the lowercase hex SHA-256 of [`approval_id_preimage`].
pub open spec fn approval_id_text(
    owner_uid: u32,
    launcher_path: Seq<char>,
    launcher_digest: Option<Seq<char>>,
    cgroup_path: Option<Seq<char>>,
    resource: ResourceIdentityView,
    action: Action,
) -> Seq<char> {
    hex_bytes(
        sha256_of(
            approval_id_preimage(
                owner_uid,
                launcher_path,
                launcher_digest,
                cgroup_path,
                resource,
                action,
            ),
        ),
    )
}

/// The text of an optional digest.
pub open spec fn digest_text(o: Option<ExecutableDigest>) -> Option<Seq<char>> {
    match o {
        Some(d) => Some(d@),
        None => None,
    }
}

/// The text of an optional string.
pub open spec fn string_text(o: Option<String>) -> Option<Seq<char>> {
    match o {
        Some(s) => Some(s@),
        None => None,
    }
}

/// Append the little-endian bytes of `x`.
fn push_le_u32(out: &mut Vec<u8>, x: u32)
    ensures
        final(out)@ == old(out)@ + le_bytes_u32(x),
{
    out.push((x % 256) as u8);
    out.push(((x / 256) % 256) as u8);
    out.push(((x / 65536) % 256) as u8);
    out.push((x / 16777216) as u8);
    assert(out@ =~= old(out)@ + le_bytes_u32(x));
}

/// Append the UTF-8 bytes of `s` and a zero separator.
fn push_field(out: &mut Vec<u8>, s: &str)
    ensures
        final(out)@ == old(out)@ + utf8(s@) + seq![0u8],
{
    push_utf8(out, s);
    out.push(0u8);
}

impl ApprovalId {
    pub fn as_str(&self) -> (s: &str)
        ensures
            s@ == self@,
    {
        self.0.as_str()
    }

    /// Wrap raw text as an id for a lookup. Grants nothing by itself.
    pub fn from_raw(raw: &str) -> (i: Self)
        ensures
            i@ == raw@,
    {
        ApprovalId(string_of(raw))
    }

    /// A copy of this id.
    pub fn duplicate(&self) -> (i: Self)
        ensures
            i@ == self@,
    {
        ApprovalId(self.0.clone())
    }

    /// Whether two ids are equal.
    pub fn same(&self, other: &ApprovalId) -> (b: bool)
        ensures
            b == (self@ == other@),
    {
        self.0 == other.0
    }

    /// Derive the id of a binding's identity-anchoring dimensions plus the
    /// request's resource and action.
    fn compute(
        owner_uid: u32,
        launcher_path: &str,
        launcher_digest: Option<&ExecutableDigest>,
        cgroup_path: Option<&str>,
        resource: &ResourceIdentity,
        action: Action,
    ) -> (i: Self)
        ensures
            i@ == approval_id_text(
                owner_uid,
                launcher_path@,
                match launcher_digest {
                    Some(d) => Some(d@),
                    None => None,
                },
                match cgroup_path {
                    Some(c) => Some(c@),
                    None => None,
                },
                resource@,
                action,
            ),
    {
        let mut bytes: Vec<u8> = Vec::new();
        push_le_u32(&mut bytes, owner_uid);
        bytes.push(0u8);
        push_field(&mut bytes, launcher_path);
        match launcher_digest {
            Some(d) => push_field(&mut bytes, d.as_str()),
            None => push_field(&mut bytes, ""),
        }
        match cgroup_path {
            Some(c) => push_field(&mut bytes, c),
            None => push_field(&mut bytes, ""),
        }
        push_field(&mut bytes, resource.vendor.as_str());
        push_field(&mut bytes, resource.kind.as_str());
        push_field(&mut bytes, resource.local_id.as_str());
        match action {
            Action::Compute => bytes.push(1u8),
            _ => bytes.push(0u8),
        }
        proof {
            reveal_strlit("");
            assert(utf8(Seq::<char>::empty()) =~= Seq::<u8>::empty());
            let digest_t = match launcher_digest {
                Some(d) => Some(d@),
                None => None,
            };
            let cgroup_t = match cgroup_path {
                Some(c) => Some(c@),
                None => None,
            };
            assert(bytes@ =~= approval_id_preimage(
                owner_uid,
                launcher_path@,
                digest_t,
                cgroup_t,
                resource@,
                action,
            ));
        }
        ApprovalId(sha256_hex(bytes.as_slice()))
    }
}

/// The launcher context an approval is bound to — the baseline that
/// [`recall`] compares fresh observations against.
#[derive(Debug, Clone, PartialEq, Eq)]
pub struct ApprovalBinding {
    pub owner_uid: u32,
    pub launcher_path: String,
    /// `None` when no digest was available at approval time; the
    /// dimension is then never compared.
    pub launcher_digest: Option<ExecutableDigest>,
    /// `None` means no cgroup is expected.
    pub cgroup_path: Option<String>,
    pub capabilities: ResourceCapabilities,
    pub policy: PolicyProvenance,
}

/// The abstract value of an [`ApprovalBinding`].
pub struct ApprovalBindingView {
    pub owner_uid: u32,
    pub launcher_path: Seq<char>,
    pub launcher_digest: Option<Seq<char>>,
    pub cgroup_path: Option<Seq<char>>,
    pub capabilities: Seq<Option<SupportState>>,
    pub policy: PolicyProvenanceView,
}

impl View for ApprovalBinding {
    type V = ApprovalBindingView;

    open spec fn view(&self) -> ApprovalBindingView {
        ApprovalBindingView {
            owner_uid: self.owner_uid,
            launcher_path: self.launcher_path@,
            launcher_digest: digest_text(self.launcher_digest),
            cgroup_path: string_text(self.cgroup_path),
            capabilities: self.capabilities@,
            policy: self.policy@,
        }
    }
}

/// A copy of an optional string.
fn duplicate_opt_string(o: &Option<String>) -> (r: Option<String>)
    ensures
        string_text(r) == string_text(*o),
{
    match o {
        Some(s) => Some(s.clone()),
        None => None,
    }
}

/// A copy of an optional digest.
fn duplicate_opt_digest(o: &Option<ExecutableDigest>) -> (r: Option<ExecutableDigest>)
    ensures
        digest_text(r) == digest_text(*o),
{
    match o {
        Some(d) => Some(d.duplicate()),
        None => None,
    }
}

impl ApprovalBinding {
    /// A copy of this binding.
    pub fn duplicate(&self) -> (b: Self)
        ensures
            b@ == self@,
    {
        ApprovalBinding {
            owner_uid: self.owner_uid,
            launcher_path: self.launcher_path.clone(),
            launcher_digest: duplicate_opt_digest(&self.launcher_digest),
            cgroup_path: duplicate_opt_string(&self.cgroup_path),
            capabilities: self.capabilities.duplicate(),
            policy: self.policy.duplicate(),
        }
    }
}

/// The abstract value of an [`Approval`]; its id is [`view_id`] of it.
pub struct ApprovalView {
    pub binding: ApprovalBindingView,
    pub resource: ResourceIdentityView,
    pub action: Action,
    pub disposition: ApprovalDisposition,
}

/// The id an approval with abstract value `a` carries.
pub open spec fn view_id(a: ApprovalView) -> Seq<char> {
    approval_id_text(
        a.binding.owner_uid,
        a.binding.launcher_path,
        a.binding.launcher_digest,
        a.binding.cgroup_path,
        a.resource,
        a.action,
    )
}

/// One remembered (or denied) authorization intent. Its id is always the
/// digest of its own binding, resource and action.
#[derive(Debug, PartialEq, Eq)]
pub struct Approval {
    id: ApprovalId,
    binding: ApprovalBinding,
    resource: ResourceIdentity,
    action: Action,
    disposition: ApprovalDisposition,
}

impl View for Approval {
    type V = ApprovalView;

    closed spec fn view(&self) -> ApprovalView {
        ApprovalView {
            binding: self.binding@,
            resource: self.resource@,
            action: self.action,
            disposition: self.disposition,
        }
    }
}

impl Approval {
    #[verifier::type_invariant]
    closed spec fn id_matches(self) -> bool {
        self.id@ == view_id(self@)
    }

    pub fn id(&self) -> (r: &ApprovalId)
        ensures
            r@ == view_id(self@),
    {
        proof {
            use_type_invariant(self);
        }
        &self.id
    }

    pub fn binding(&self) -> (r: &ApprovalBinding)
        ensures
            r@ == self@.binding,
    {
        &self.binding
    }

    pub fn resource(&self) -> (r: &ResourceIdentity)
        ensures
            r@ == self@.resource,
    {
        &self.resource
    }

    pub fn action(&self) -> (r: Action)
        ensures
            r == self@.action,
    {
        self.action
    }

    pub fn disposition(&self) -> (r: ApprovalDisposition)
        ensures
            r == self@.disposition,
    {
        self.disposition
    }

    /// A fresh approval from already-observed evidence; its id is derived
    /// from the binding's identity dimensions and the request.
    pub fn new(
        binding: ApprovalBinding,
        resource: ResourceIdentity,
        action: Action,
        disposition: ApprovalDisposition,
    ) -> (a: Self)
        ensures
            a@ == (ApprovalView { binding: binding@, resource: resource@, action, disposition }),
    {
        let id = ApprovalId::compute(
            binding.owner_uid,
            binding.launcher_path.as_str(),
            match &binding.launcher_digest {
                Some(d) => Some(d),
                None => None,
            },
            match &binding.cgroup_path {
                Some(c) => Some(c.as_str()),
                None => None,
            },
            &resource,
            action,
        );
        Approval { id, binding, resource, action, disposition }
    }

    /// A copy of this approval.
    pub fn duplicate(&self) -> (a: Self)
        ensures
            a@ == self@,
    {
        proof {
            use_type_invariant(self);
        }
        Approval {
            id: self.id.duplicate(),
            binding: self.binding.duplicate(),
            resource: self.resource.duplicate(),
            action: self.action,
            disposition: self.disposition,
        }
    }
}

impl Clone for Approval {
    fn clone(&self) -> (a: Self)
        ensures
            a@ == self@,
    {
        self.duplicate()
    }
}

/// The material-change dimensions [`recall`] can report, in the order
/// they are checked and listed.
#[derive(Debug, Clone, Copy, PartialEq, Eq, Structural, PartialOrd, Ord)]
pub enum ChangedDimension {
    OwnerUid,
    LauncherPath,
    LauncherDigest,
    CgroupPath,
    ResourceCapabilityState,
    PolicyRevision,
}

/// The result of [`recall`]. `Indeterminate` must be treated like
/// `NotMatched`, never as `Matched`.
#[derive(Debug, Clone, PartialEq, Eq)]
pub enum RecallVerdict {
    Matched { id: ApprovalId },
    /// The changed dimensions, each once, in declaration order.
    NotMatched { changed: Vec<ChangedDimension> },
    Indeterminate { reason: String },
}

/// The abstract value of a [`RecallVerdict`].
pub enum RecallView {
    Matched(Seq<char>),
    NotMatched(Seq<ChangedDimension>),
    Indeterminate(Seq<char>),
}

impl View for RecallVerdict {
    type V = RecallView;

    open spec fn view(&self) -> RecallView {
        match self {
            RecallVerdict::Matched { id } => RecallView::Matched(id@),
            RecallVerdict::NotMatched { changed } => RecallView::NotMatched(changed@),
            RecallVerdict::Indeterminate { reason } => RecallView::Indeterminate(reason@),
        }
    }
}

/// The outcome of re-observing one bound dimension.
pub enum DimensionCheck {
    /// The evidence cannot be used; the reason says why.
    Gap(Seq<char>),
    Unchanged,
    Changed,
}

/// The owner-uid dimension.
pub open spec fn uid_check(observed: Evidence<u32>, expected: u32) -> DimensionCheck {
    match observed {
        Evidence::Present { value, source } => if source == EvidenceSource::SelfAsserted {
            DimensionCheck::Gap("owner uid evidence was self-asserted"@)
        } else if value == expected {
            DimensionCheck::Unchanged
        } else {
            DimensionCheck::Changed
        },
        _ => DimensionCheck::Gap("owner uid evidence is unavailable"@),
    }
}

/// A text dimension whose evidence must be present and not self-asserted.
pub open spec fn text_check(
    observed: Evidence<String>,
    expected: Seq<char>,
    self_asserted_reason: Seq<char>,
    unavailable_reason: Seq<char>,
) -> DimensionCheck {
    match observed {
        Evidence::Present { value, source } => if source == EvidenceSource::SelfAsserted {
            DimensionCheck::Gap(self_asserted_reason)
        } else if value@ == expected {
            DimensionCheck::Unchanged
        } else {
            DimensionCheck::Changed
        },
        _ => DimensionCheck::Gap(unavailable_reason),
    }
}

/// The launcher-path dimension.
pub open spec fn path_check(observed: Evidence<String>, expected: Seq<char>) -> DimensionCheck {
    text_check(
        observed,
        expected,
        "launcher path evidence was self-asserted"@,
        "launcher path evidence is unavailable"@,
    )
}

/// The launcher-digest dimension: compared only when a digest was
/// recorded.
pub open spec fn digest_check(observed: Evidence<String>, expected: Option<Seq<char>>) -> DimensionCheck {
    match expected {
        None => DimensionCheck::Unchanged,
        Some(x) => text_check(
            observed,
            x,
            "launcher digest evidence was self-asserted"@,
            "launcher digest evidence is unavailable"@,
        ),
    }
}

/// The cgroup dimension: with no recorded cgroup, any present cgroup is
/// a change; with one recorded, the evidence must confirm it.
pub open spec fn cgroup_check(observed: Evidence<String>, expected: Option<Seq<char>>) -> DimensionCheck {
    match expected {
        None => if observed is Present {
            DimensionCheck::Changed
        } else {
            DimensionCheck::Unchanged
        },
        Some(x) => text_check(
            observed,
            x,
            "cgroup path evidence was self-asserted"@,
            "cgroup path evidence is unavailable but was expected"@,
        ),
    }
}

/// `d` when `changed`, else nothing.
pub open spec fn flag(changed: bool, d: ChangedDimension) -> Seq<ChangedDimension> {
    if changed {
        seq![d]
    } else {
        Seq::empty()
    }
}

/// The text [`recall`] reports for a request naming another resource or
/// action.
pub open spec fn mismatched_request_reason() -> Seq<char> {
    "recall() called with a request that does not match this approval's (resource, action)"@
}

/// The verdict [`recall`] gives: a request for another resource or
/// action is indeterminate; then the owner uid, launcher path, launcher
/// digest and cgroup dimensions are re-observed in that order, the first
/// unusable one making the verdict indeterminate; otherwise every changed
/// dimension (capabilities and policy included) is listed, and none
/// changed means a match carrying the approval's id.
pub open spec fn spec_recall(
    approval: ApprovalView,
    observed: ExecutionContext,
    observed_capabilities: Seq<Option<SupportState>>,
    current_policy: PolicyProvenanceView,
    request: ComputeRequest,
) -> RecallView {
    let b = approval.binding;
    let c1 = uid_check(observed.workload.uid, b.owner_uid);
    let c2 = path_check(observed.workload.executable_path, b.launcher_path);
    let c3 = digest_check(observed.workload.executable_hash, b.launcher_digest);
    let c4 = cgroup_check(observed.cgroup_path, b.cgroup_path);
    if request.resource@ != approval.resource || request.action != approval.action {
        RecallView::Indeterminate(mismatched_request_reason())
    } else if c1 is Gap {
        RecallView::Indeterminate(c1->0)
    } else if c2 is Gap {
        RecallView::Indeterminate(c2->0)
    } else if c3 is Gap {
        RecallView::Indeterminate(c3->0)
    } else if c4 is Gap {
        RecallView::Indeterminate(c4->0)
    } else {
        let changed = flag(c1 is Changed, ChangedDimension::OwnerUid) + flag(
            c2 is Changed,
            ChangedDimension::LauncherPath,
        ) + flag(c3 is Changed, ChangedDimension::LauncherDigest) + flag(
            c4 is Changed,
            ChangedDimension::CgroupPath,
        ) + flag(
            observed_capabilities != b.capabilities,
            ChangedDimension::ResourceCapabilityState,
        ) + flag(current_policy != b.policy, ChangedDimension::PolicyRevision);
        if changed.len() == 0 {
            RecallView::Matched(view_id(approval))
        } else {
            RecallView::NotMatched(changed)
        }
    }
}

/// Re-observe the owner uid: `Ok(changed)` or the reason it is unusable.
fn check_uid(observed: &Evidence<u32>, expected: u32) -> (r: Result<bool, &'static str>)
    ensures
        uid_check(*observed, expected) matches DimensionCheck::Gap(g) ==> (r matches Err(s)
            && s@ == g),
        uid_check(*observed, expected) is Unchanged ==> r == Ok::<bool, &str>(false),
        uid_check(*observed, expected) is Changed ==> r == Ok::<bool, &str>(true),
{
    proof {
        reveal_strlit("owner uid evidence was self-asserted");
        reveal_strlit("owner uid evidence is unavailable");
    }
    match observed {
        Evidence::Present { value, source } => match source {
            EvidenceSource::SelfAsserted => Err("owner uid evidence was self-asserted"),
            _ => Ok(*value != expected),
        },
        _ => Err("owner uid evidence is unavailable"),
    }
}

/// Re-observe a text dimension: `Ok(changed)` or the reason it is
/// unusable.
fn check_text(
    observed: &Evidence<String>,
    expected: &str,
    self_asserted_reason: &'static str,
    unavailable_reason: &'static str,
) -> (r: Result<bool, &'static str>)
    ensures
        text_check(*observed, expected@, self_asserted_reason@, unavailable_reason@) matches DimensionCheck::Gap(g)
            ==> (r matches Err(s) && s@ == g),
        text_check(*observed, expected@, self_asserted_reason@, unavailable_reason@) is Unchanged
            ==> r == Ok::<bool, &str>(false),
        text_check(*observed, expected@, self_asserted_reason@, unavailable_reason@) is Changed
            ==> r == Ok::<bool, &str>(true),
{
    match observed {
        Evidence::Present { value, source } => match source {
            EvidenceSource::SelfAsserted => Err(self_asserted_reason),
            _ => Ok(!str_eq(value.as_str(), expected)),
        },
        _ => Err(unavailable_reason),
    }
}

/// Whether `request` still matches `approval`'s remembered binding, given
/// freshly observed context, capabilities and policy — the one combined
/// check. Dimensions the binding did not record (no digest) are skipped;
/// a request for another resource or action is reported indeterminate.
pub fn recall(
    approval: &Approval,
    observed: &ExecutionContext,
    observed_capabilities: &ResourceCapabilities,
    current_policy: &PolicyProvenance,
    request: &ComputeRequest,
) -> (v: RecallVerdict)
    ensures
        v@ == spec_recall(
            approval@,
            *observed,
            observed_capabilities@,
            current_policy@,
            *request,
        ),
{
    proof {
        reveal_strlit(
            "recall() called with a request that does not match this approval's (resource, action)",
        );
        reveal_strlit("launcher path evidence was self-asserted");
        reveal_strlit("launcher path evidence is unavailable");
        reveal_strlit("launcher digest evidence was self-asserted");
        reveal_strlit("launcher digest evidence is unavailable");
        reveal_strlit("cgroup path evidence was self-asserted");
        reveal_strlit("cgroup path evidence is unavailable but was expected");
    }
    if !request.resource.same(&approval.resource) || request.action != approval.action {
        return RecallVerdict::Indeterminate {
            reason: string_of(
                "recall() called with a request that does not match this approval's (resource, action)",
            ),
        };
    }
    let binding = &approval.binding;
    let uid_changed = match check_uid(&observed.workload.uid, binding.owner_uid) {
        Ok(c) => c,
        Err(reason) => {
            return RecallVerdict::Indeterminate { reason: string_of(reason) };
        },
    };
    let path_changed = match check_text(
        &observed.workload.executable_path,
        binding.launcher_path.as_str(),
        "launcher path evidence was self-asserted",
        "launcher path evidence is unavailable",
    ) {
        Ok(c) => c,
        Err(reason) => {
            return RecallVerdict::Indeterminate { reason: string_of(reason) };
        },
    };
    let digest_changed = match &binding.launcher_digest {
        None => false,
        Some(expected) => match check_text(
            &observed.workload.executable_hash,
            expected.as_str(),
            "launcher digest evidence was self-asserted",
            "launcher digest evidence is unavailable",
        ) {
            Ok(c) => c,
            Err(reason) => {
                return RecallVerdict::Indeterminate { reason: string_of(reason) };
            },
        },
    };
    let cgroup_changed = match &binding.cgroup_path {
        None => observed.cgroup_path.is_present(),
        Some(expected) => match check_text(
            &observed.cgroup_path,
            expected.as_str(),
            "cgroup path evidence was self-asserted",
            "cgroup path evidence is unavailable but was expected",
        ) {
            Ok(c) => c,
            Err(reason) => {
                return RecallVerdict::Indeterminate { reason: string_of(reason) };
            },
        },
    };
    let caps_changed = !observed_capabilities.same(&binding.capabilities);
    let policy_changed = !current_policy.same(&binding.policy);
    let mut changed: Vec<ChangedDimension> = Vec::new();
    if uid_changed {
        changed.push(ChangedDimension::OwnerUid);
    }
    if path_changed {
        changed.push(ChangedDimension::LauncherPath);
    }
    if digest_changed {
        changed.push(ChangedDimension::LauncherDigest);
    }
    if cgroup_changed {
        changed.push(ChangedDimension::CgroupPath);
    }
    if caps_changed {
        changed.push(ChangedDimension::ResourceCapabilityState);
    }
    if policy_changed {
        changed.push(ChangedDimension::PolicyRevision);
    }
    proof {
        assert(changed@ =~= flag(uid_changed, ChangedDimension::OwnerUid) + flag(
            path_changed,
            ChangedDimension::LauncherPath,
        ) + flag(digest_changed, ChangedDimension::LauncherDigest) + flag(
            cgroup_changed,
            ChangedDimension::CgroupPath,
        ) + flag(caps_changed, ChangedDimension::ResourceCapabilityState) + flag(
            policy_changed,
            ChangedDimension::PolicyRevision,
        ));
    }
    if changed.len() == 0 {
        RecallVerdict::Matched { id: approval.id().duplicate() }
    } else {
        RecallVerdict::NotMatched { changed }
    }
}

/// The on-disk row for one approval: plain fields only.
#[derive(Debug, Clone, PartialEq, Eq)]
pub struct ApprovalEntry {
    pub owner_uid: u32,
    pub launcher_path: String,
    pub launcher_digest: Option<String>,
    pub cgroup_path: Option<String>,
    pub capabilities: ResourceCapabilities,
    pub policy_id: String,
    pub policy_revision: u32,
    pub schema_version: u16,
    pub resource: ResourceIdentity,
    pub action: Action,
    pub disposition: ApprovalDisposition,
}

/// The abstract value of an [`ApprovalEntry`].
pub struct ApprovalEntryView {
    pub owner_uid: u32,
    pub launcher_path: Seq<char>,
    pub launcher_digest: Option<Seq<char>>,
    pub cgroup_path: Option<Seq<char>>,
    pub capabilities: Seq<Option<SupportState>>,
    pub policy_id: Seq<char>,
    pub policy_revision: u32,
    pub schema_version: u16,
    pub resource: ResourceIdentityView,
    pub action: Action,
    pub disposition: ApprovalDisposition,
}

impl View for ApprovalEntry {
    type V = ApprovalEntryView;

    open spec fn view(&self) -> ApprovalEntryView {
        ApprovalEntryView {
            owner_uid: self.owner_uid,
            launcher_path: self.launcher_path@,
            launcher_digest: string_text(self.launcher_digest),
            cgroup_path: string_text(self.cgroup_path),
            capabilities: self.capabilities@,
            policy_id: self.policy_id@,
            policy_revision: self.policy_revision,
            schema_version: self.schema_version,
            resource: self.resource@,
            action: self.action,
            disposition: self.disposition,
        }
    }
}

/// The approval an on-disk row describes.
pub open spec fn entry_to_approval(e: ApprovalEntryView) -> ApprovalView {
    ApprovalView {
        binding: ApprovalBindingView {
            owner_uid: e.owner_uid,
            launcher_path: e.launcher_path,
            launcher_digest: e.launcher_digest,
            cgroup_path: e.cgroup_path,
            capabilities: e.capabilities,
            policy: PolicyProvenanceView {
                policy_id: e.policy_id,
                policy_revision: e.policy_revision,
                schema_version: e.schema_version,
            },
        },
        resource: e.resource,
        action: e.action,
        disposition: e.disposition,
    }
}

/// The on-disk row of an approval.
pub open spec fn approval_to_entry(a: ApprovalView) -> ApprovalEntryView {
    ApprovalEntryView {
        owner_uid: a.binding.owner_uid,
        launcher_path: a.binding.launcher_path,
        launcher_digest: a.binding.launcher_digest,
        cgroup_path: a.binding.cgroup_path,
        capabilities: a.binding.capabilities,
        policy_id: a.binding.policy.policy_id,
        policy_revision: a.binding.policy.policy_revision,
        schema_version: a.binding.policy.schema_version,
        resource: a.resource,
        action: a.action,
        disposition: a.disposition,
    }
}

/// The on-disk document holding every stored approval row.
#[derive(Debug, Clone, PartialEq, Eq)]
pub struct ApprovalDocument {
    pub entries: Vec<ApprovalEntry>,
}

impl View for ApprovalDocument {
    type V = Seq<ApprovalEntryView>;

    open spec fn view(&self) -> Seq<ApprovalEntryView> {
        self.entries@.map_values(|e: ApprovalEntry| e@)
    }
}

impl Default for ApprovalDocument {
    fn default() -> (d: Self)
        ensures
            d@ == Seq::<ApprovalEntryView>::empty(),
    {
        let d = ApprovalDocument { entries: Vec::new() };
        assert(d@ =~= Seq::<ApprovalEntryView>::empty());
        d
    }
}

/// Why [`ApprovalSet::from_document`] rejected a document.
#[derive(Debug, Clone, PartialEq, Eq, Structural)]
pub enum ApprovalError {
    EmptyLauncherPath,
    EmptyPolicyId,
    UnsupportedVersion(UnsupportedVersion),
}

impl From<UnsupportedVersion> for ApprovalError {
    fn from(e: UnsupportedVersion) -> (r: Self)
        ensures
            r == ApprovalError::UnsupportedVersion(e),
    {
        ApprovalError::UnsupportedVersion(e)
    }
}

impl vstd::std_specs::convert::FromSpecImpl<UnsupportedVersion> for ApprovalError {
    open spec fn obeys_from_spec() -> bool {
        true
    }

    open spec fn from_spec(e: UnsupportedVersion) -> ApprovalError {
        ApprovalError::UnsupportedVersion(e)
    }
}

impl ApprovalError {
    /// The human-readable description of this error.
    pub fn message(&self) -> (s: String)
        ensures
            *self == ApprovalError::EmptyLauncherPath ==> s@
                == "approval launcher_path must not be empty"@,
            *self == ApprovalError::EmptyPolicyId ==> s@ == "approval policy_id must not be empty"@,
            self matches ApprovalError::UnsupportedVersion(u) ==> s@
                == "unsupported domain schema version: found "@ + crate::decimal::decimal(
                u.found as nat,
            ) + ", expected "@ + crate::decimal::decimal(u.expected as nat),
    {
        match self {
            ApprovalError::EmptyLauncherPath => string_of("approval launcher_path must not be empty"),
            ApprovalError::EmptyPolicyId => string_of("approval policy_id must not be empty"),
            ApprovalError::UnsupportedVersion(u) => u.message(),
        }
    }
}

/// What is wrong with one row, if anything: an empty launcher path, else
/// an empty policy id.
pub open spec fn entry_error(e: ApprovalEntryView) -> Option<ApprovalError> {
    if e.launcher_path.len() == 0 {
        Some(ApprovalError::EmptyLauncherPath)
    } else if e.policy_id.len() == 0 {
        Some(ApprovalError::EmptyPolicyId)
    } else {
        None
    }
}

/// `r` is what validating the rows `entries` gives: the error of the
/// first faulty row, else one approval per row, in order.
pub open spec fn document_result_fits(
    r: Result<ApprovalSet, ApprovalError>,
    entries: Seq<ApprovalEntryView>,
) -> bool {
    match r {
        Ok(set) => (forall|i: int| 0 <= i < entries.len() ==> #[trigger] entry_error(entries[i]) is None)
            && set@ == entries.map_values(|e: ApprovalEntryView| entry_to_approval(e)),
        Err(err) => exists|i: int|
            0 <= i < entries.len() && #[trigger] entry_error(entries[i]) == Some(err) && forall|
                k: int,
            |
                0 <= k < i ==> #[trigger] entry_error(entries[k]) is None,
    }
}

/// Candidates among `s` for `resource`/`action`: the deny ones when
/// `deny`, else the others, in stored order.
pub open spec fn select_candidates(
    s: Seq<ApprovalView>,
    resource: ResourceIdentityView,
    action: Action,
    deny: bool,
) -> Seq<ApprovalView>
    decreases s.len(),
{
    if s.len() == 0 {
        Seq::empty()
    } else {
        let rest = select_candidates(s.drop_last(), resource, action, deny);
        let a = s.last();
        if a.resource == resource && a.action == action && (a.disposition
            == ApprovalDisposition::Deny) == deny {
            rest.push(a)
        } else {
            rest
        }
    }
}

/// The approvals of `s` owned by `uid`, in stored order.
pub open spec fn select_owned(s: Seq<ApprovalView>, uid: u32) -> Seq<ApprovalView>
    decreases s.len(),
{
    if s.len() == 0 {
        Seq::empty()
    } else {
        let rest = select_owned(s.drop_last(), uid);
        if s.last().binding.owner_uid == uid {
            rest.push(s.last())
        } else {
            rest
        }
    }
}

/// `s` without the approvals whose id is `id`, in stored order.
pub open spec fn remove_id(s: Seq<ApprovalView>, id: Seq<char>) -> Seq<ApprovalView>
    decreases s.len(),
{
    if s.len() == 0 {
        Seq::empty()
    } else {
        let rest = remove_id(s.drop_last(), id);
        if view_id(s.last()) == id {
            rest
        } else {
            rest.push(s.last())
        }
    }
}

/// The abstract values of a list of approvals.
pub open spec fn approval_views(v: Seq<Approval>) -> Seq<ApprovalView> {
    v.map_values(|a: Approval| a@)
}

/// The abstract values of a list of borrowed approvals.
pub open spec fn borrowed_views(v: Seq<&Approval>) -> Seq<ApprovalView> {
    v.map_values(|a: &Approval| a@)
}

/// `remove_id` removes exactly the approvals carrying `id`.
pub proof fn lemma_remove_id(s: Seq<ApprovalView>, id: Seq<char>)
    ensures
        forall|k: int|
            0 <= k < remove_id(s, id).len() ==> view_id(#[trigger] remove_id(s, id)[k]) != id,
        remove_id(s, id).len() <= s.len(),
        remove_id(s, id).len() == s.len() <==> forall|k: int|
            0 <= k < s.len() ==> view_id(#[trigger] s[k]) != id,
    decreases s.len(),
{
    if s.len() > 0 {
        lemma_remove_id(s.drop_last(), id);
        if (forall|k: int| 0 <= k < s.len() ==> view_id(#[trigger] s[k]) != id) {
            assert forall|k: int| 0 <= k < s.drop_last().len() implies view_id(
                #[trigger] s.drop_last()[k],
            ) != id by {
                assert(s.drop_last()[k] == s[k]);
            }
        }
        if remove_id(s, id).len() == s.len() {
            assert forall|k: int| 0 <= k < s.len() implies view_id(#[trigger] s[k]) != id by {
                if k < s.len() - 1 {
                    assert(s[k] == s.drop_last()[k]);
                }
            }
        }
    }
}

/// A validated collection of approvals. From untrusted rows, the only way
/// in is [`ApprovalSet::from_document`] / [`ApprovalSet::from_versioned`].
#[derive(Debug, Clone, PartialEq, Eq)]
pub struct ApprovalSet {
    approvals: Vec<Approval>,
}

impl View for ApprovalSet {
    type V = Seq<ApprovalView>;

    closed spec fn view(&self) -> Seq<ApprovalView> {
        approval_views(self.approvals@)
    }
}

impl Default for ApprovalSet {
    fn default() -> (s: Self)
        ensures
            s@ == Seq::<ApprovalView>::empty(),
    {
        Self::new()
    }
}

impl ApprovalSet {
    /// The empty set.
    pub fn new() -> (s: Self)
        ensures
            s@ == Seq::<ApprovalView>::empty(),
    {
        let s = ApprovalSet { approvals: Vec::new() };
        assert(s@ =~= Seq::<ApprovalView>::empty());
        s
    }

    /// Validate `document`: every row needs a non-empty launcher path and
    /// policy id; the first faulty row's error is returned.
    pub fn from_document(document: ApprovalDocument) -> (r: Result<Self, ApprovalError>)
        ensures
            document_result_fits(r, document@),
    {
        let ghost entries = document@;
        let mut approvals: Vec<Approval> = Vec::new();
        let mut i: usize = 0;
        while i < document.entries.len()
            invariant
                i <= document.entries@.len(),
                entries == document@,
                forall|k: int| 0 <= k < i ==> #[trigger] entry_error(entries[k]) is None,
                approval_views(approvals@) == entries.take(i as int).map_values(
                    |e: ApprovalEntryView| entry_to_approval(e),
                ),
            decreases document.entries.len() - i,
        {
            let entry = &document.entries[i];
            assert(entries[i as int] == entry@);
            if entry.launcher_path.as_str().unicode_len() == 0 {
                assert(entry_error(entries[i as int]) == Some(ApprovalError::EmptyLauncherPath));
                return Err(ApprovalError::EmptyLauncherPath);
            }
            if entry.policy_id.as_str().unicode_len() == 0 {
                assert(entry_error(entries[i as int]) == Some(ApprovalError::EmptyPolicyId));
                return Err(ApprovalError::EmptyPolicyId);
            }
            let binding = ApprovalBinding {
                owner_uid: entry.owner_uid,
                launcher_path: entry.launcher_path.clone(),
                launcher_digest: match &entry.launcher_digest {
                    Some(d) => Some(ExecutableDigest::new(d.as_str())),
                    None => None,
                },
                cgroup_path: duplicate_opt_string(&entry.cgroup_path),
                capabilities: entry.capabilities.duplicate(),
                policy: PolicyProvenance {
                    policy_id: PolicyId::new(entry.policy_id.as_str()),
                    policy_revision: entry.policy_revision,
                    schema_version: entry.schema_version,
                },
            };
            let approval = Approval::new(
                binding,
                entry.resource.duplicate(),
                entry.action,
                entry.disposition,
            );
            let ghost prev = approvals@;
            assert(approval@ == entry_to_approval(entries[i as int]));
            approvals.push(approval);
            proof {
                assert(approvals@ =~= prev.push(approval));
                assert(approval_views(approvals@) =~= approval_views(prev).push(approval@));
                assert(entries.take(i + 1) =~= entries.take(i as int).push(entries[i as int]));
                assert(entries.take(i + 1).map_values(|e: ApprovalEntryView| entry_to_approval(e))
                    =~= entries.take(i as int).map_values(
                    |e: ApprovalEntryView| entry_to_approval(e),
                ).push(entry_to_approval(entries[i as int])));
                assert(approval_views(approvals@) =~= entries.take(i + 1).map_values(
                    |e: ApprovalEntryView| entry_to_approval(e),
                ));
            }
            i = i + 1;
        }
        proof {
            assert(entries.take(i as int) =~= entries);
        }
        Ok(ApprovalSet { approvals })
    }

    /// Unwrap the envelope's schema version, then validate its payload as
    /// [`ApprovalSet::from_document`] does.
    pub fn from_versioned(envelope: Versioned<ApprovalDocument>) -> (r: Result<Self, ApprovalError>)
        ensures
            envelope.version != crate::envelope::DOMAIN_SCHEMA_VERSION ==> r == Err::<
                ApprovalSet,
                ApprovalError,
            >(
                ApprovalError::UnsupportedVersion(
                    UnsupportedVersion {
                        found: envelope.version,
                        expected: crate::envelope::DOMAIN_SCHEMA_VERSION,
                    },
                ),
            ),
            envelope.version == crate::envelope::DOMAIN_SCHEMA_VERSION ==> document_result_fits(
                r,
                envelope.payload@,
            ),
    {
        match envelope.into_current() {
            Ok(document) => Self::from_document(document),
            Err(e) => Err(ApprovalError::from(e)),
        }
    }

    /// This set as its on-disk document, one row per approval, in order.
    pub fn to_document(&self) -> (d: ApprovalDocument)
        ensures
            d@ == self@.map_values(|a: ApprovalView| approval_to_entry(a)),
    {
        let mut entries: Vec<ApprovalEntry> = Vec::new();
        let mut i: usize = 0;
        while i < self.approvals.len()
            invariant
                i <= self.approvals@.len(),
                entries@.map_values(|e: ApprovalEntry| e@) == self@.take(i as int).map_values(
                    |a: ApprovalView| approval_to_entry(a),
                ),
            decreases self.approvals.len() - i,
        {
            let approval = &self.approvals[i];
            let b = &approval.binding;
            let entry = ApprovalEntry {
                owner_uid: b.owner_uid,
                launcher_path: b.launcher_path.clone(),
                launcher_digest: match &b.launcher_digest {
                    Some(d) => Some(string_of(d.as_str())),
                    None => None,
                },
                cgroup_path: duplicate_opt_string(&b.cgroup_path),
                capabilities: b.capabilities.duplicate(),
                policy_id: string_of(b.policy.policy_id.as_str()),
                policy_revision: b.policy.policy_revision,
                schema_version: b.policy.schema_version,
                resource: approval.resource.duplicate(),
                action: approval.action,
                disposition: approval.disposition,
            };
            let ghost before = entries@;
            assert(entry@ == approval_to_entry(approval@));
            entries.push(entry);
            proof {
                assert(entries@ =~= before.push(entry));
                assert(entries@.map_values(|e: ApprovalEntry| e@) =~= before.map_values(
                    |e: ApprovalEntry| e@,
                ).push(entry@));
                assert(self@[i as int] == approval@);
                assert(self@.take(i + 1).map_values(|a: ApprovalView| approval_to_entry(a))
                    =~= self@.take(i as int).map_values(|a: ApprovalView| approval_to_entry(a)).push(
                    approval_to_entry(self@[i as int]),
                ));
                assert(self@.take(i + 1) =~= self@.take(i as int).push(self@[i as int]));
                assert(entries@.map_values(|e: ApprovalEntry| e@) =~= self@.take(i + 1).map_values(
                    |a: ApprovalView| approval_to_entry(a),
                ));
            }
            i = i + 1;
        }
        proof {
            assert(self@.take(i as int) =~= self@);
        }
        ApprovalDocument { entries }
    }

    /// Every stored approval, in order.
    pub fn approvals(&self) -> (r: &[Approval])
        ensures
            approval_views(r@) == self@,
    {
        self.approvals.as_slice()
    }

    /// Every stored approval naming exactly `resource`/`action` — the only
    /// lookup key — deny dispositions first, each group in stored order,
    /// so folding left to right implements deny-overrides.
    pub fn candidates(&self, resource: &ResourceIdentity, action: Action) -> (r: Vec<&Approval>)
        ensures
            borrowed_views(r@) == select_candidates(self@, resource@, action, true)
                + select_candidates(self@, resource@, action, false),
    {
        let mut out: Vec<&Approval> = Vec::new();
        let ghost denies = select_candidates(self@, resource@, action, true);
        let mut pass: usize = 0;
        while pass < 2
            invariant
                pass <= 2,
                denies == select_candidates(self@, resource@, action, true),
                pass == 0 ==> borrowed_views(out@) == Seq::<ApprovalView>::empty(),
                pass == 1 ==> borrowed_views(out@) == denies,
                pass == 2 ==> borrowed_views(out@) == denies + select_candidates(
                    self@,
                    resource@,
                    action,
                    false,
                ),
            decreases 2 - pass,
        {
            let want_deny = pass == 0;
            let ghost start = borrowed_views(out@);
            let mut i: usize = 0;
            while i < self.approvals.len()
                invariant
                    i <= self.approvals@.len(),
                    borrowed_views(out@) == start + select_candidates(
                        self@.take(i as int),
                        resource@,
                        action,
                        want_deny,
                    ),
                decreases self.approvals.len() - i,
            {
                let a = &self.approvals[i];
                let is_deny = match a.disposition {
                    ApprovalDisposition::Deny => true,
                    _ => false,
                };
                proof {
                    assert(self@[i as int] == a@);
                    assert(self@.take(i + 1).drop_last() =~= self@.take(i as int));
                }
                let ghost prev = out@;
                if a.resource.same(resource) && a.action == action && is_deny == want_deny {
                    out.push(a);
                    assert(out@ =~= prev.push(a));
                    assert(borrowed_views(out@) =~= borrowed_views(prev).push(a@));
                    assert(self@.take(i + 1).last() == a@);
                    assert(borrowed_views(out@) =~= start + select_candidates(
                        self@.take(i + 1),
                        resource@,
                        action,
                        want_deny,
                    ));
                } else {
                    assert(self@.take(i + 1).last() == a@);
                }
                i = i + 1;
            }
            proof {
                assert(self@.take(i as int) =~= self@);
                if pass == 0 {
                    assert(start =~= Seq::<ApprovalView>::empty());
                    assert(borrowed_views(out@) =~= denies);
                } else {
                    assert(start == denies);
                }
            }
            pass = pass + 1;
        }
        out
    }

    /// Insert `approval`, replacing every stored approval with the same id
    /// (the same launcher, context and request approved again).
    pub fn insert(&mut self, approval: Approval)
        ensures
            final(self)@ == remove_id(old(self)@, view_id(approval@)).push(approval@),
    {
        let id = approval.id().duplicate();
        self.retain_other_ids(&id);
        self.approvals.push(approval);
        assert(self@ =~= remove_id(old(self)@, view_id(approval@)).push(approval@));
    }

    /// Keep only the approvals whose id is not `id`.
    fn retain_other_ids(&mut self, id: &ApprovalId)
        ensures
            final(self)@ == remove_id(old(self)@, id@),
    {
        let ghost before = self@;
        let mut kept: Vec<Approval> = Vec::new();
        let mut i: usize = 0;
        while i < self.approvals.len()
            invariant
                i <= self.approvals@.len(),
                self@ == before,
                approval_views(kept@) == remove_id(before.take(i as int), id@),
            decreases self.approvals.len() - i,
        {
            let a = &self.approvals[i];
            proof {
                assert(before[i as int] == a@);
                assert(before.take(i + 1).drop_last() =~= before.take(i as int));
            }
            let ghost prev = kept@;
            assert(before.take(i + 1).last() == a@);
            if !a.id().same(id) {
                let copy = a.duplicate();
                kept.push(copy);
                assert(kept@ =~= prev.push(copy));
                assert(approval_views(kept@) =~= approval_views(prev).push(a@));
                assert(approval_views(kept@) =~= remove_id(before.take(i + 1), id@));
            }
            i = i + 1;
        }
        assert(before.take(i as int) =~= before);
        self.approvals = kept;
    }

    /// Remove every approval identified by `id`; whether any was removed.
    pub fn remove(&mut self, id: &ApprovalId) -> (b: bool)
        ensures
            final(self)@ == remove_id(old(self)@, id@),
            b == exists|k: int| 0 <= k < old(self)@.len() && view_id(#[trigger] old(self)@[k]) == id@,
    {
        let before = self.approvals.len();
        self.retain_other_ids(id);
        proof {
            lemma_remove_id(old(self)@, id@);
        }
        self.approvals.len() != before
    }

    /// The first stored approval identified by `id`, if any.
    pub fn get(&self, id: &ApprovalId) -> (r: Option<&Approval>)
        ensures
            r is None <==> forall|k: int| 0 <= k < self@.len() ==> view_id(#[trigger] self@[k]) != id@,
            r matches Some(a) ==> exists|k: int|
                0 <= k < self@.len() && a@ == self@[k] && view_id(#[trigger] self@[k]) == id@
                    && forall|j: int| 0 <= j < k ==> view_id(#[trigger] self@[j]) != id@,
    {
        let mut i: usize = 0;
        while i < self.approvals.len()
            invariant
                i <= self.approvals@.len(),
                forall|j: int| 0 <= j < i ==> view_id(#[trigger] self@[j]) != id@,
            decreases self.approvals.len() - i,
        {
            let a = &self.approvals[i];
            assert(self@[i as int] == a@);
            if a.id().same(id) {
                return Some(a);
            }
            i = i + 1;
        }
        None
    }

    /// Every approval owned by `uid`, in stored order.
    pub fn owned_by(&self, uid: u32) -> (r: Vec<&Approval>)
        ensures
            borrowed_views(r@) == select_owned(self@, uid),
    {
        let mut out: Vec<&Approval> = Vec::new();
        let mut i: usize = 0;
        while i < self.approvals.len()
            invariant
                i <= self.approvals@.len(),
                borrowed_views(out@) == select_owned(self@.take(i as int), uid),
            decreases self.approvals.len() - i,
        {
            let a = &self.approvals[i];
            proof {
                assert(self@[i as int] == a@);
                assert(self@.take(i + 1).drop_last() =~= self@.take(i as int));
            }
            let ghost prev = out@;
            assert(self@.take(i + 1).last() == a@);
            if a.binding.owner_uid == uid {
                out.push(a);
                assert(out@ =~= prev.push(a));
                assert(borrowed_views(out@) =~= borrowed_views(prev).push(a@));
                assert(borrowed_views(out@) =~= select_owned(self@.take(i + 1), uid));
            }
            i = i + 1;
        }
        assert(self@.take(i as int) =~= self@);
        out
    }
}

/// Every approval of `remove_id(s, id)` is one of `s`.
proof fn lemma_remove_id_subset(s: Seq<ApprovalView>, id: Seq<char>)
    ensures
        forall|k: int|
            0 <= k < remove_id(s, id).len() ==> s.contains(#[trigger] remove_id(s, id)[k]),
    decreases s.len(),
{
    if s.len() > 0 {
        lemma_remove_id_subset(s.drop_last(), id);
        let rest = remove_id(s.drop_last(), id);
        assert forall|k: int| 0 <= k < remove_id(s, id).len() implies s.contains(
            #[trigger] remove_id(s, id)[k],
        ) by {
            if k < rest.len() {
                assert(remove_id(s, id)[k] == rest[k]);
                let j = choose|j: int| 0 <= j < s.drop_last().len() && s.drop_last()[j] == rest[k];
                assert(s[j] == rest[k]);
            } else {
                assert(s[s.len() - 1] == remove_id(s, id)[k]);
            }
        }
    }
}

/// No two approvals of `s` carry the same id.
pub open spec fn unique_ids(s: Seq<ApprovalView>) -> bool {
    forall|i: int, j: int|
        0 <= i < j < s.len() ==> view_id(#[trigger] s[i]) != view_id(#[trigger] s[j])
}

/// A document written by [`ApprovalSet::to_document`] reads back, through
/// [`ApprovalSet::from_document`], as the very same approvals — provided
/// every approval has a non-empty launcher path and policy id (an empty
/// one is refused on the way back in).
pub proof fn law_document_round_trip(s: Seq<ApprovalView>, r: Result<ApprovalSet, ApprovalError>)
    requires
        forall|i: int|
            0 <= i < s.len() ==> (#[trigger] s[i]).binding.launcher_path.len() > 0
                && s[i].binding.policy.policy_id.len() > 0,
        document_result_fits(r, s.map_values(|a: ApprovalView| approval_to_entry(a))),
    ensures
        r matches Ok(set) && set@ == s,
{
    let entries = s.map_values(|a: ApprovalView| approval_to_entry(a));
    assert forall|i: int| 0 <= i < entries.len() implies #[trigger] entry_error(entries[i]) is None by {
        assert(entries[i] == approval_to_entry(s[i]));
    }
    if r is Err {
        let err = r->Err_0;
        let i = choose|i: int|
            0 <= i < entries.len() && #[trigger] entry_error(entries[i]) == Some(err) && forall|
                k: int,
            |
                0 <= k < i ==> #[trigger] entry_error(entries[k]) is None;
        assert(entry_error(entries[i]) is None);
    }
    assert(entries.map_values(|e: ApprovalEntryView| entry_to_approval(e)) =~= s);
}

/// What a read gives back of a write: after inserting `a`, the only
/// stored approval carrying `a`'s id is `a` itself, stored last — so
/// [`ApprovalSet::get`] with that id returns `a`.
pub proof fn law_insert_then_get(s: Seq<ApprovalView>, a: ApprovalView)
    ensures
        ({
            let t = remove_id(s, view_id(a)).push(a);
            &&& t.last() == a
            &&& forall|k: int| 0 <= k < t.len() && view_id(#[trigger] t[k]) == view_id(a) ==> k
                == t.len() - 1
        }),
{
    lemma_remove_id(s, view_id(a));
    let r = remove_id(s, view_id(a));
    let t = r.push(a);
    assert forall|k: int| 0 <= k < t.len() && view_id(#[trigger] t[k]) == view_id(a) implies k
        == t.len() - 1 by {
        if k < t.len() - 1 {
            assert(t[k] == r[k]);
        }
    }
}

/// After removing an id, no stored approval carries it.
pub proof fn law_remove_then_absent(s: Seq<ApprovalView>, id: Seq<char>)
    ensures
        forall|k: int|
            0 <= k < remove_id(s, id).len() ==> view_id(#[trigger] remove_id(s, id)[k]) != id,
{
    lemma_remove_id(s, id);
}

/// Inserting never creates a second approval with the same id.
pub proof fn law_insert_keeps_ids_unique(s: Seq<ApprovalView>, a: ApprovalView)
    requires
        unique_ids(s),
    ensures
        unique_ids(remove_id(s, view_id(a)).push(a)),
    decreases s.len(),
{
    lemma_remove_id(s, view_id(a));
    lemma_remove_unique(s, view_id(a));
    let r = remove_id(s, view_id(a));
    let t = r.push(a);
    assert forall|i: int, j: int| 0 <= i < j < t.len() implies view_id(#[trigger] t[i]) != view_id(
        #[trigger] t[j],
    ) by {
        assert(t[i] == r[i]);
        if j < t.len() - 1 {
            assert(t[j] == r[j]);
        }
    }
}

/// Removing approvals keeps ids unique.
proof fn lemma_remove_unique(s: Seq<ApprovalView>, id: Seq<char>)
    requires
        unique_ids(s),
    ensures
        unique_ids(remove_id(s, id)),
    decreases s.len(),
{
    if s.len() > 0 {
        let d = s.drop_last();
        assert(unique_ids(d)) by {
            assert forall|i: int, j: int| 0 <= i < j < d.len() implies view_id(#[trigger] d[i])
                != view_id(#[trigger] d[j]) by {
                assert(d[i] == s[i] && d[j] == s[j]);
            }
        }
        lemma_remove_unique(d, id);
        lemma_remove_id_subset(d, id);
        let rest = remove_id(d, id);
        if view_id(s.last()) != id {
            let t = rest.push(s.last());
            assert forall|i: int, j: int| 0 <= i < j < t.len() implies view_id(#[trigger] t[i])
                != view_id(#[trigger] t[j]) by {
                assert(t[i] == rest[i]);
                if j < t.len() - 1 {
                    assert(t[j] == rest[j]);
                } else {
                    assert(d.contains(rest[i]));
                    let m = choose|m: int| 0 <= m < d.len() && d[m] == rest[i];
                    assert(s[m] == rest[i]);
                    assert(t[j] == s[s.len() - 1]);
                }
            }
        }
    }
}

/// A request whose observed context still matches everything the
/// approval recorded — usable uid, launcher path and (if recorded)
/// digest equal to the binding's, the recorded cgroup confirmed (or none
/// present when none was recorded), and the same capabilities and policy
/// — is recalled as a match carrying the approval's id.
pub proof fn law_recall_matches_unchanged_context(
    approval: ApprovalView,
    observed: ExecutionContext,
    observed_capabilities: Seq<Option<SupportState>>,
    current_policy: PolicyProvenanceView,
    request: ComputeRequest,
)
    requires
        request.resource@ == approval.resource,
        request.action == approval.action,
        uid_check(observed.workload.uid, approval.binding.owner_uid) is Unchanged,
        path_check(observed.workload.executable_path, approval.binding.launcher_path) is Unchanged,
        digest_check(observed.workload.executable_hash, approval.binding.launcher_digest) is Unchanged,
        cgroup_check(observed.cgroup_path, approval.binding.cgroup_path) is Unchanged,
        observed_capabilities == approval.binding.capabilities,
        current_policy == approval.binding.policy,
    ensures
        spec_recall(approval, observed, observed_capabilities, current_policy, request)
            == RecallView::Matched(view_id(approval)),
{
    let changed = flag(false, ChangedDimension::OwnerUid) + flag(
        false,
        ChangedDimension::LauncherPath,
    ) + flag(false, ChangedDimension::LauncherDigest) + flag(false, ChangedDimension::CgroupPath)
        + flag(false, ChangedDimension::ResourceCapabilityState) + flag(
        false,
        ChangedDimension::PolicyRevision,
    );
    assert(changed.len() == 0);
}

/// Self-asserted identity evidence never recalls a match: a
/// self-asserted uid or launcher path is never `Matched`.
pub proof fn law_recall_never_matches_self_asserted_identity(
    approval: ApprovalView,
    observed: ExecutionContext,
    observed_capabilities: Seq<Option<SupportState>>,
    current_policy: PolicyProvenanceView,
    request: ComputeRequest,
)
    requires
        (observed.workload.uid matches Evidence::Present { source, .. } && source
            == EvidenceSource::SelfAsserted) || (observed.workload.executable_path matches Evidence::Present {
            source,
            ..
        } && source == EvidenceSource::SelfAsserted),
    ensures
        !(spec_recall(approval, observed, observed_capabilities, current_policy, request) is Matched),
{
}


/// Law (a different launcher is never recalled): if the freshly observed
/// launcher path is usable (present, not self-asserted) and differs from
/// the path the approval recorded, recall never matches. When the other
/// re-observed dimensions are usable too — the owner uid, the digest if
/// one was recorded, the cgroup if one was recorded — the verdict is
/// `NotMatched` and lists `LauncherPath` among the changes.
pub proof fn law_changed_launcher_path_is_reported(
    approval: ApprovalView,
    observed: ExecutionContext,
    observed_capabilities: Seq<Option<SupportState>>,
    current_policy: PolicyProvenanceView,
    request: ComputeRequest,
)
    requires
        observed.workload.executable_path is Present,
        observed.workload.executable_path->source != EvidenceSource::SelfAsserted,
        observed.workload.executable_path->value@ != approval.binding.launcher_path,
    ensures
        !(spec_recall(approval, observed, observed_capabilities, current_policy, request) is Matched),
        ({
            &&& request.resource@ == approval.resource
            &&& request.action == approval.action
            &&& observed.workload.uid is Present
            &&& observed.workload.uid->source != EvidenceSource::SelfAsserted
            &&& approval.binding.launcher_digest is Some ==> (observed.workload.executable_hash is Present
                && observed.workload.executable_hash->source != EvidenceSource::SelfAsserted)
            &&& approval.binding.cgroup_path is Some ==> (observed.cgroup_path is Present
                && observed.cgroup_path->source != EvidenceSource::SelfAsserted)
        }) ==> (spec_recall(
            approval,
            observed,
            observed_capabilities,
            current_policy,
            request,
        ) matches RecallView::NotMatched(changed) && changed.contains(
            ChangedDimension::LauncherPath,
        )),
{
    let b = approval.binding;
    let c1 = uid_check(observed.workload.uid, b.owner_uid);
    let c3 = digest_check(observed.workload.executable_hash, b.launcher_digest);
    let c4 = cgroup_check(observed.cgroup_path, b.cgroup_path);
    assert(path_check(observed.workload.executable_path, b.launcher_path) is Changed);
    let changed = flag(c1 is Changed, ChangedDimension::OwnerUid) + flag(
        true,
        ChangedDimension::LauncherPath,
    ) + flag(c3 is Changed, ChangedDimension::LauncherDigest) + flag(
        c4 is Changed,
        ChangedDimension::CgroupPath,
    ) + flag(
        observed_capabilities != b.capabilities,
        ChangedDimension::ResourceCapabilityState,
    ) + flag(current_policy != b.policy, ChangedDimension::PolicyRevision);
    let f1 = flag(c1 is Changed, ChangedDimension::OwnerUid);
    assert(changed[f1.len() as int] == ChangedDimension::LauncherPath);
    assert(changed.len() > 0);
}

} // verus!
