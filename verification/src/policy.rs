//! Authorization policy decision.
//!
//! A [`PolicySet`] is obtained only by validating a [`PolicyDocument`];
//! [`PolicySet::evaluate`] is a function of the policy, the observed
//! context and the request alone.
//!
//! * Default deny: `Allow` only through a non-empty set of definitively
//!   matching allow rules.
//! * Deny overrides, order independent: every rule is evaluated; the
//!   explanation lists rule ids in sorted order, so it depends on the set
//!   of rules, never on their authoring order.
//! * Trust floor: a condition matches only present evidence whose source
//!   clears its floor; self-asserted evidence clears no floor.
//! * A deny rule whose outcome cannot be determined (its evidence is
//!   missing or unsupported) fails closed to `Deny`.

use vstd::prelude::*;

use crate::envelope::{UnsupportedVersion, Versioned, DOMAIN_SCHEMA_VERSION};
use crate::identity::{Evidence, EvidenceSource, ExecutionContext};
use crate::resource::{Action, ComputeRequest, ResourceIdentity};
use crate::text::{compare_strs, seq_lt, string_of, Order};

verus! {

/// Identity of one [`PolicyDocument`].
#[derive(Debug, Clone, PartialEq, Eq, PartialOrd, Ord, Hash)]
pub struct PolicyId(String);

impl View for PolicyId {
    type V = Seq<char>;

    closed spec fn view(&self) -> Seq<char> {
        self.0@
    }
}

impl PolicyId {
    pub fn new(id: &str) -> (p: Self)
        ensures
            p@ == id@,
    {
        PolicyId(string_of(id))
    }

    pub fn as_str(&self) -> (s: &str)
        ensures
            s@ == self@,
    {
        self.0.as_str()
    }

    pub fn duplicate(&self) -> (p: Self)
        ensures
            p@ == self@,
    {
        PolicyId(self.0.clone())
    }
}

/// Identity of one [`Rule`], unique within its document.
#[derive(Debug, Clone, PartialEq, Eq, PartialOrd, Ord, Hash)]
pub struct RuleId(String);

impl View for RuleId {
    type V = Seq<char>;

    closed spec fn view(&self) -> Seq<char> {
        self.0@
    }
}

impl RuleId {
    pub fn new(id: &str) -> (r: Self)
        ensures
            r@ == id@,
    {
        RuleId(string_of(id))
    }

    pub fn as_str(&self) -> (s: &str)
        ensures
            s@ == self@,
    {
        self.0.as_str()
    }

    pub fn duplicate(&self) -> (r: Self)
        ensures
            r@ == self@,
            r == *self,
    {
        RuleId(self.0.clone())
    }
}

/// What a matching [`Rule`] does.
#[derive(Debug, Clone, Copy, PartialEq, Eq, Structural)]
pub enum Effect {
    Allow,
    Deny,
}

/// The minimum trust evidence must carry for a [`Condition`] to match
/// it. Self-asserted evidence is not representable as a floor.
#[derive(Debug, Clone, Copy, PartialEq, Eq, Structural)]
pub enum TrustFloor {
    KernelObserved,
    BestEffort,
}

/// Whether evidence observed via `source` clears `floor`.
pub open spec fn spec_admits(floor: TrustFloor, source: EvidenceSource) -> bool {
    match (floor, source) {
        (TrustFloor::KernelObserved, EvidenceSource::KernelObserved) => true,
        (TrustFloor::BestEffort, EvidenceSource::KernelObserved) => true,
        (TrustFloor::BestEffort, EvidenceSource::BestEffort) => true,
        _ => false,
    }
}

impl TrustFloor {
    /// Whether evidence observed via `source` clears this floor.
    /// `SelfAsserted` never clears any floor.
    pub fn admits(self, source: EvidenceSource) -> (b: bool)
        ensures
            b == spec_admits(self, source),
            source == EvidenceSource::SelfAsserted ==> !b,
    {
        match (self, source) {
            (TrustFloor::KernelObserved, EvidenceSource::KernelObserved) => true,
            (TrustFloor::BestEffort, EvidenceSource::KernelObserved) => true,
            (TrustFloor::BestEffort, EvidenceSource::BestEffort) => true,
            _ => false,
        }
    }
}

/// One evidence-backed equality check.
#[derive(Debug, Clone, PartialEq, Eq)]
pub struct EvidenceMatch<T> {
    pub expected: T,
    pub min_trust: TrustFloor,
}

/// The result of evaluating one [`Condition`]: "cannot be determined" is
/// kept apart from "definitively does not match".
#[derive(Debug, Clone, Copy, PartialEq, Eq, Structural)]
pub enum ConditionOutcome {
    Matched,
    NotMatched,
    /// The evidence was missing or unsupported.
    Indeterminate,
}

/// Outcome of a numeric match against `e`.
pub open spec fn outcome_u32(m: EvidenceMatch<u32>, e: Evidence<u32>) -> ConditionOutcome {
    match e {
        Evidence::Present { value, source } => {
            if value == m.expected && spec_admits(m.min_trust, source) {
                ConditionOutcome::Matched
            } else {
                ConditionOutcome::NotMatched
            }
        },
        _ => ConditionOutcome::Indeterminate,
    }
}

/// Outcome of a string match against `e`.
pub open spec fn outcome_str(m: EvidenceMatch<String>, e: Evidence<String>) -> ConditionOutcome {
    match e {
        Evidence::Present { value, source } => {
            if value@ == m.expected@ && spec_admits(m.min_trust, source) {
                ConditionOutcome::Matched
            } else {
                ConditionOutcome::NotMatched
            }
        },
        _ => ConditionOutcome::Indeterminate,
    }
}

impl EvidenceMatch<u32> {
    pub fn evaluate(&self, evidence: &Evidence<u32>) -> (o: ConditionOutcome)
        ensures
            o == outcome_u32(*self, *evidence),
    {
        match evidence {
            Evidence::Present { value, source } => {
                if *value == self.expected && self.min_trust.admits(*source) {
                    ConditionOutcome::Matched
                } else {
                    ConditionOutcome::NotMatched
                }
            },
            _ => ConditionOutcome::Indeterminate,
        }
    }

    /// Whether `evidence` satisfies this match: present, equal, and from a
    /// source clearing the floor.
    pub fn matches(&self, evidence: &Evidence<u32>) -> (b: bool)
        ensures
            b == (outcome_u32(*self, *evidence) == ConditionOutcome::Matched),
    {
        match self.evaluate(evidence) {
            ConditionOutcome::Matched => true,
            _ => false,
        }
    }
}

impl EvidenceMatch<String> {
    pub fn evaluate(&self, evidence: &Evidence<String>) -> (o: ConditionOutcome)
        ensures
            o == outcome_str(*self, *evidence),
    {
        match evidence {
            Evidence::Present { value, source } => {
                if *value == self.expected && self.min_trust.admits(*source) {
                    ConditionOutcome::Matched
                } else {
                    ConditionOutcome::NotMatched
                }
            },
            _ => ConditionOutcome::Indeterminate,
        }
    }

    /// Whether `evidence` satisfies this match: present, equal, and from a
    /// source clearing the floor.
    pub fn matches(&self, evidence: &Evidence<String>) -> (b: bool)
        ensures
            b == (outcome_str(*self, *evidence) == ConditionOutcome::Matched),
    {
        match self.evaluate(evidence) {
            ConditionOutcome::Matched => true,
            _ => false,
        }
    }
}

/// A single evidence-backed condition. Only fields that carry real
/// evidence are representable; pid, ancestry and the unpopulated hints
/// are deliberately unmatchable.
#[derive(Debug, Clone, PartialEq, Eq)]
pub enum Condition {
    Uid(EvidenceMatch<u32>),
    Gid(EvidenceMatch<u32>),
    ExecutablePath(EvidenceMatch<String>),
    ExecutableHash(EvidenceMatch<String>),
    CgroupPath(EvidenceMatch<String>),
}

/// Which field a condition inspects.
pub open spec fn condition_kind(c: Condition) -> int {
    match c {
        Condition::Uid(_) => 0,
        Condition::Gid(_) => 1,
        Condition::ExecutablePath(_) => 2,
        Condition::ExecutableHash(_) => 3,
        Condition::CgroupPath(_) => 4,
    }
}

/// The outcome of `c` against `ctx`.
pub open spec fn condition_outcome(c: Condition, ctx: ExecutionContext) -> ConditionOutcome {
    match c {
        Condition::Uid(m) => outcome_u32(m, ctx.workload.uid),
        Condition::Gid(m) => outcome_u32(m, ctx.workload.gid),
        Condition::ExecutablePath(m) => outcome_str(m, ctx.workload.executable_path),
        Condition::ExecutableHash(m) => outcome_str(m, ctx.workload.executable_hash),
        Condition::CgroupPath(m) => outcome_str(m, ctx.cgroup_path),
    }
}

impl Condition {
    fn kind(&self) -> (k: usize)
        ensures
            k == condition_kind(*self),
    {
        match self {
            Condition::Uid(_) => 0,
            Condition::Gid(_) => 1,
            Condition::ExecutablePath(_) => 2,
            Condition::ExecutableHash(_) => 3,
            Condition::CgroupPath(_) => 4,
        }
    }

    fn evaluate(&self, context: &ExecutionContext) -> (o: ConditionOutcome)
        ensures
            o == condition_outcome(*self, *context),
    {
        match self {
            Condition::Uid(m) => m.evaluate(&context.workload.uid),
            Condition::Gid(m) => m.evaluate(&context.workload.gid),
            Condition::ExecutablePath(m) => m.evaluate(&context.workload.executable_path),
            Condition::ExecutableHash(m) => m.evaluate(&context.workload.executable_hash),
            Condition::CgroupPath(m) => m.evaluate(&context.cgroup_path),
        }
    }
}

/// One authored rule: on an exact resource/action match, if every
/// condition matches, the rule contributes `effect`.
#[derive(Debug, Clone, PartialEq, Eq)]
pub struct Rule {
    pub id: RuleId,
    pub effect: Effect,
    pub resource: ResourceIdentity,
    pub action: Action,
    pub conditions: Vec<Condition>,
}

/// How `r` bears on `req` under `ctx`: `None` when resource or action
/// differ; otherwise `NotMatched` if any condition definitively fails,
/// else `Indeterminate` if any cannot be determined, else `Matched`.
pub open spec fn rule_outcome(r: Rule, ctx: ExecutionContext, req: ComputeRequest) -> Option<
    ConditionOutcome,
> {
    if !(r.resource@ == req.resource@ && r.action == req.action) {
        None
    } else if exists|i: int|
        0 <= i < r.conditions@.len() && condition_outcome(#[trigger] r.conditions@[i], ctx)
            == ConditionOutcome::NotMatched {
        Some(ConditionOutcome::NotMatched)
    } else if exists|i: int|
        0 <= i < r.conditions@.len() && condition_outcome(#[trigger] r.conditions@[i], ctx)
            == ConditionOutcome::Indeterminate {
        Some(ConditionOutcome::Indeterminate)
    } else {
        Some(ConditionOutcome::Matched)
    }
}

impl Rule {
    fn evaluate(&self, context: &ExecutionContext, request: &ComputeRequest) -> (o: Option<
        ConditionOutcome,
    >)
        ensures
            o == rule_outcome(*self, *context, *request),
    {
        if !self.resource.same(&request.resource) || self.action != request.action {
            return None;
        }
        let mut any_indeterminate = false;
        let mut i: usize = 0;
        while i < self.conditions.len()
            invariant
                self.resource@ == request.resource@,
                self.action == request.action,
                i <= self.conditions@.len(),
                forall|j: int|
                    0 <= j < i ==> condition_outcome(#[trigger] self.conditions@[j], *context)
                        != ConditionOutcome::NotMatched,
                any_indeterminate == exists|j: int|
                    0 <= j < i && condition_outcome(#[trigger] self.conditions@[j], *context)
                        == ConditionOutcome::Indeterminate,
            decreases self.conditions.len() - i,
        {
            match self.conditions[i].evaluate(context) {
                ConditionOutcome::NotMatched => {
                    assert(condition_outcome(self.conditions@[i as int], *context)
                        == ConditionOutcome::NotMatched);
                    return Some(ConditionOutcome::NotMatched);
                },
                ConditionOutcome::Indeterminate => {
                    any_indeterminate = true;
                },
                ConditionOutcome::Matched => {},
            }
            i = i + 1;
        }
        if any_indeterminate {
            Some(ConditionOutcome::Indeterminate)
        } else {
            Some(ConditionOutcome::Matched)
        }
    }
}

/// The authored, not-yet-validated policy document.
#[derive(Debug, Clone, PartialEq, Eq)]
pub struct PolicyDocument {
    pub id: PolicyId,
    /// Author-declared content revision.
    pub revision: u32,
    pub rules: Vec<Rule>,
}

/// Why [`PolicySet::from_document`] rejected a document.
#[derive(Debug, Clone, PartialEq, Eq)]
pub enum PolicyError {
    EmptyPolicyId,
    EmptyRuleId,
    DuplicateRuleId { rule: RuleId },
    RuleWithoutConditions { rule: RuleId },
    DuplicateConditionKind { rule: RuleId },
    UnknownActionInRule { rule: RuleId },
    UnsupportedVersion(UnsupportedVersion),
}

/// How `Debug` writes a rule id.
pub open spec fn rule_id_debug(id: Seq<char>) -> Seq<char> {
    "RuleId("@ + crate::text::str_debug(id) + ")"@
}

impl PolicyError {
    /// The human-readable description of this error.
    pub fn message(&self) -> (s: String)
        ensures
            *self == PolicyError::EmptyPolicyId ==> s@ == "policy id must not be empty"@,
            *self == PolicyError::EmptyRuleId ==> s@ == "rule id must not be empty"@,
            self matches PolicyError::DuplicateRuleId { rule } ==> s@ == "duplicate rule id: "@
                + rule_id_debug(rule@),
            self matches PolicyError::RuleWithoutConditions { rule } ==> s@ == "rule "@
                + rule_id_debug(rule@) + " has no conditions"@,
            self matches PolicyError::DuplicateConditionKind { rule } ==> s@ == "rule "@
                + rule_id_debug(rule@) + " has more than one condition on the same field"@,
            self matches PolicyError::UnknownActionInRule { rule } ==> s@ == "rule "@
                + rule_id_debug(rule@) + " names an unrecognized action"@,
            self matches PolicyError::UnsupportedVersion(u) ==> s@
                == "unsupported domain schema version: found "@ + crate::decimal::decimal(
                u.found as nat,
            ) + ", expected "@ + crate::decimal::decimal(u.expected as nat),
    {
        match self {
            PolicyError::EmptyPolicyId => string_of("policy id must not be empty"),
            PolicyError::EmptyRuleId => string_of("rule id must not be empty"),
            PolicyError::DuplicateRuleId { rule } => {
                let mut s = string_of("duplicate rule id: ");
                push_rule_id_debug(&mut s, rule);
                s
            },
            PolicyError::RuleWithoutConditions { rule } => {
                let mut s = string_of("rule ");
                push_rule_id_debug(&mut s, rule);
                crate::text::push_str(&mut s, " has no conditions");
                s
            },
            PolicyError::DuplicateConditionKind { rule } => {
                let mut s = string_of("rule ");
                push_rule_id_debug(&mut s, rule);
                crate::text::push_str(&mut s, " has more than one condition on the same field");
                s
            },
            PolicyError::UnknownActionInRule { rule } => {
                let mut s = string_of("rule ");
                push_rule_id_debug(&mut s, rule);
                crate::text::push_str(&mut s, " names an unrecognized action");
                s
            },
            PolicyError::UnsupportedVersion(u) => u.message(),
        }
    }
}

/// Append [`rule_id_debug`] of `id`.
fn push_rule_id_debug(out: &mut String, id: &RuleId)
    ensures
        final(out)@ == old(out)@ + rule_id_debug(id@),
{
    let ghost start = out@;
    crate::text::push_str(out, "RuleId(");
    crate::text::push_debug_quoted(out, id.as_str());
    crate::text::push_str(out, ")");
    assert(out@ =~= start + rule_id_debug(id@));
}

impl From<UnsupportedVersion> for PolicyError {
    fn from(e: UnsupportedVersion) -> (r: Self)
        ensures
            r == PolicyError::UnsupportedVersion(e),
    {
        PolicyError::UnsupportedVersion(e)
    }
}

impl vstd::std_specs::convert::FromSpecImpl<UnsupportedVersion> for PolicyError {
    open spec fn obeys_from_spec() -> bool {
        true
    }

    open spec fn from_spec(e: UnsupportedVersion) -> PolicyError {
        PolicyError::UnsupportedVersion(e)
    }
}

/// Two conditions of rule `r` inspect the same field.
pub open spec fn has_duplicate_kind(r: Rule) -> bool {
    exists|a: int, b: int|
        0 <= a < b < r.conditions@.len() && condition_kind(#[trigger] r.conditions@[a])
            == condition_kind(#[trigger] r.conditions@[b])
}

/// The error rule `i` of `rules` raises when validation reaches it, if any.
pub open spec fn rule_error(rules: Seq<Rule>, i: int) -> Option<PolicyError> {
    let r = rules[i];
    if r.id@.len() == 0 {
        Some(PolicyError::EmptyRuleId)
    } else if exists|j: int| 0 <= j < i && (#[trigger] rules[j]).id@ == r.id@ {
        Some(PolicyError::DuplicateRuleId { rule: r.id })
    } else if r.conditions@.len() == 0 {
        Some(PolicyError::RuleWithoutConditions { rule: r.id })
    } else if has_duplicate_kind(r) {
        Some(PolicyError::DuplicateConditionKind { rule: r.id })
    } else if r.action == Action::Unknown {
        Some(PolicyError::UnknownActionInRule { rule: r.id })
    } else {
        None
    }
}

/// A document every rule of which validates and whose id is non-empty.
pub open spec fn valid_document(doc: PolicyDocument) -> bool {
    &&& doc.id@.len() > 0
    &&& forall|i: int| 0 <= i < doc.rules@.len() ==> #[trigger] rule_error(doc.rules@, i) is None
}

/// The error validation reports for `doc`: an empty policy id first, else
/// the error of the first offending rule in document order.
pub open spec fn document_error(doc: PolicyDocument, e: PolicyError) -> bool {
    if doc.id@.len() == 0 {
        e == PolicyError::EmptyPolicyId
    } else {
        exists|i: int|
            0 <= i < doc.rules@.len() && rule_error(doc.rules@, i) == Some(e) && forall|j: int|
                0 <= j < i ==> #[trigger] rule_error(doc.rules@, j) is None
    }
}

/// Provenance of one decision: which policy, which revision, which
/// domain schema version.
#[derive(Debug, Clone, PartialEq, Eq)]
pub struct PolicyProvenance {
    pub policy_id: PolicyId,
    pub policy_revision: u32,
    pub schema_version: u16,
}

/// The abstract value of a [`PolicyProvenance`].
pub struct PolicyProvenanceView {
    pub policy_id: Seq<char>,
    pub policy_revision: u32,
    pub schema_version: u16,
}

impl View for PolicyProvenance {
    type V = PolicyProvenanceView;

    open spec fn view(&self) -> PolicyProvenanceView {
        PolicyProvenanceView {
            policy_id: self.policy_id@,
            policy_revision: self.policy_revision,
            schema_version: self.schema_version,
        }
    }
}

impl PolicyProvenance {
    /// Whether two provenances name the same policy, revision and schema.
    pub fn same(&self, other: &PolicyProvenance) -> (b: bool)
        ensures
            b == (self@ == other@),
    {
        self.policy_id.0 == other.policy_id.0 && self.policy_revision == other.policy_revision
            && self.schema_version == other.schema_version
    }

    pub fn duplicate(&self) -> (p: PolicyProvenance)
        ensures
            p@ == self@,
    {
        PolicyProvenance {
            policy_id: self.policy_id.duplicate(),
            policy_revision: self.policy_revision,
            schema_version: self.schema_version,
        }
    }
}

/// Why a decision came out the way it did. Every id list is sorted in
/// code-point order with no repeats, so the explanation is canonical
/// regardless of rule authoring order.
#[derive(Debug, Clone, PartialEq, Eq)]
pub enum DecisionReason {
    NoMatchingRule,
    ExplicitAllow { matched_rules: Vec<RuleId> },
    ExplicitDeny { matched_rules: Vec<RuleId>, overridden_allow_rules: Vec<RuleId> },
    /// A deny rule's resource/action matched but whether its conditions
    /// hold could not be determined; fails closed to `Deny`.
    IndeterminateEvidence { rules: Vec<RuleId> },
}

impl DecisionReason {
    /// A copy of this reason: the same variant listing the same rule ids.
    pub fn duplicate(&self) -> (r: DecisionReason)
        ensures
            reason_view(r) == reason_view(*self),
    {
        match self {
            DecisionReason::NoMatchingRule => DecisionReason::NoMatchingRule,
            DecisionReason::ExplicitAllow { matched_rules } => DecisionReason::ExplicitAllow {
                matched_rules: duplicate_ids(matched_rules),
            },
            DecisionReason::ExplicitDeny { matched_rules, overridden_allow_rules } =>
                DecisionReason::ExplicitDeny {
                matched_rules: duplicate_ids(matched_rules),
                overridden_allow_rules: duplicate_ids(overridden_allow_rules),
            },
            DecisionReason::IndeterminateEvidence { rules } =>
                DecisionReason::IndeterminateEvidence { rules: duplicate_ids(rules) },
        }
    }
}

/// A copy of a list of rule ids.
fn duplicate_ids(v: &Vec<RuleId>) -> (r: Vec<RuleId>)
    ensures
        r@ == v@,
{
    let mut r: Vec<RuleId> = Vec::new();
    let mut i: usize = 0;
    while i < v.len()
        invariant
            i <= v.len(),
            r@ == v@.subrange(0, i as int),
        decreases v.len() - i,
    {
        r.push(v[i].duplicate());
        i = i + 1;
    }
    r
}

/// Two reasons with the same abstract value fit the same evaluations.
pub proof fn lemma_reason_fits_by_view(
    a: DecisionReason,
    b: DecisionReason,
    rules: Seq<Rule>,
    ctx: ExecutionContext,
    req: ComputeRequest,
)
    requires
        reason_view(a) == reason_view(b),
        reason_fits(a, rules, ctx, req),
    ensures
        reason_fits(b, rules, ctx, req),
{
}

/// The ids of `v`, in order.
pub open spec fn id_seq(v: Seq<RuleId>) -> Seq<Seq<char>> {
    v.map_values(|r: RuleId| r@)
}

/// `s` is strictly increasing in code-point order.
pub open spec fn strictly_sorted(s: Seq<Seq<char>>) -> bool {
    forall|i: int, j: int| 0 <= i < j < s.len() ==> seq_lt(#[trigger] s[i], #[trigger] s[j])
}

/// `v` lists exactly the ids in `set`, once each, in sorted order.
pub open spec fn canonical_ids(v: Seq<RuleId>, set: Set<Seq<char>>) -> bool {
    strictly_sorted(id_seq(v)) && id_seq(v).to_set() == set
}

/// Ids of rules with effect `effect` whose outcome is `outcome`.
pub open spec fn hits(
    rules: Seq<Rule>,
    ctx: ExecutionContext,
    req: ComputeRequest,
    effect: Effect,
    outcome: ConditionOutcome,
) -> Set<Seq<char>> {
    Set::new(
        |id: Seq<char>|
            exists|i: int|
                0 <= i < rules.len() && (#[trigger] rules[i]).id@ == id && rules[i].effect == effect
                    && rule_outcome(rules[i], ctx, req) == Some(outcome),
    )
}

/// Definitively matching allow rules.
pub open spec fn allow_hits(rules: Seq<Rule>, ctx: ExecutionContext, req: ComputeRequest) -> Set<
    Seq<char>,
> {
    hits(rules, ctx, req, Effect::Allow, ConditionOutcome::Matched)
}

/// Definitively matching deny rules.
pub open spec fn deny_hits(rules: Seq<Rule>, ctx: ExecutionContext, req: ComputeRequest) -> Set<
    Seq<char>,
> {
    hits(rules, ctx, req, Effect::Deny, ConditionOutcome::Matched)
}

/// Deny rules whose outcome could not be determined.
pub open spec fn indeterminate_deny_hits(
    rules: Seq<Rule>,
    ctx: ExecutionContext,
    req: ComputeRequest,
) -> Set<Seq<char>> {
    hits(rules, ctx, req, Effect::Deny, ConditionOutcome::Indeterminate)
}

/// The reason `evaluate` must give, in precedence order: any matching
/// deny; else any indeterminate deny; else any matching allow; else no
/// matching rule.
pub open spec fn reason_fits(
    reason: DecisionReason,
    rules: Seq<Rule>,
    ctx: ExecutionContext,
    req: ComputeRequest,
) -> bool {
    let deny = deny_hits(rules, ctx, req);
    let ind = indeterminate_deny_hits(rules, ctx, req);
    let allow = allow_hits(rules, ctx, req);
    if !deny.is_empty() {
        reason matches DecisionReason::ExplicitDeny { matched_rules, overridden_allow_rules }
            && canonical_ids(matched_rules@, deny) && canonical_ids(overridden_allow_rules@, allow)
    } else if !ind.is_empty() {
        reason matches DecisionReason::IndeterminateEvidence { rules: r } && canonical_ids(
            r@,
            ind,
        )
    } else if !allow.is_empty() {
        reason matches DecisionReason::ExplicitAllow { matched_rules } && canonical_ids(
            matched_rules@,
            allow,
        )
    } else {
        reason == DecisionReason::NoMatchingRule
    }
}

/// The effect `evaluate` must give: `Allow` only when no deny rule
/// matched or was indeterminate and some allow rule matched.
pub open spec fn spec_effect(rules: Seq<Rule>, ctx: ExecutionContext, req: ComputeRequest) -> Effect {
    if deny_hits(rules, ctx, req).is_empty() && indeterminate_deny_hits(rules, ctx, req).is_empty()
        && !allow_hits(rules, ctx, req).is_empty() {
        Effect::Allow
    } else {
        Effect::Deny
    }
}

/// The outcome of evaluating a [`PolicySet`] against one request. There is
/// no public constructor outside [`PolicySet::evaluate`].
#[derive(Debug, Clone, PartialEq, Eq)]
pub struct PolicyDecision {
    effect: Effect,
    reason: DecisionReason,
    policy: PolicyProvenance,
}

impl PolicyDecision {
    pub closed spec fn spec_effect_of(&self) -> Effect {
        self.effect
    }

    pub closed spec fn spec_reason_of(&self) -> DecisionReason {
        self.reason
    }

    pub closed spec fn spec_policy_of(&self) -> PolicyProvenance {
        self.policy
    }

    pub fn effect(&self) -> (e: Effect)
        ensures
            e == self.spec_effect_of(),
    {
        self.effect
    }

    pub fn reason(&self) -> (r: &DecisionReason)
        ensures
            *r == self.spec_reason_of(),
    {
        &self.reason
    }

    pub fn policy(&self) -> (p: &PolicyProvenance)
        ensures
            *p == self.spec_policy_of(),
    {
        &self.policy
    }
}

/// A validated, evaluable policy.
#[derive(Debug, PartialEq, Eq)]
pub struct PolicySet {
    document: PolicyDocument,
}

/// Insert `id` into the canonical list `v`.
fn insert_sorted(v: &mut Vec<RuleId>, id: &RuleId)
    requires
        strictly_sorted(id_seq(old(v)@)),
    ensures
        strictly_sorted(id_seq(final(v)@)),
        id_seq(final(v)@).to_set() == id_seq(old(v)@).to_set().insert(id@),
{
    let ghost old_ids = id_seq(v@);
    let mut i: usize = 0;
    while i < v.len()
        invariant
            i <= v@.len(),
            v@ == old(v)@,
            old_ids == id_seq(v@),
            strictly_sorted(old_ids),
            forall|k: int| 0 <= k < i ==> seq_lt(#[trigger] old_ids[k], id@),
        ensures
            i <= v@.len(),
            i < v@.len() ==> seq_lt(id@, old_ids[i as int]),
        decreases v.len() - i,
    {
        match compare_strs(v[i].0.as_str(), id.0.as_str()) {
            Order::Less => {},
            Order::Equal => {
                proof {
                    assert(old_ids[i as int] == id@);
                    assert(old_ids.to_set().insert(id@) =~= old_ids.to_set());
                }
                return;
            },
            Order::Greater => {
                assert(old_ids[i as int] == v@[i as int]@);
                break;
            },
        }
        i = i + 1;
    }
    v.insert(i, id.duplicate());
    proof {
        let new_ids = id_seq(v@);
        assert(new_ids =~= old_ids.insert(i as int, id@));
        assert forall|a: int, b: int|
            0 <= a < b < new_ids.len() implies seq_lt(#[trigger] new_ids[a], #[trigger] new_ids[b]) by {
            if b < i {
            } else if b == i {
                assert(new_ids[a] == old_ids[a]);
            } else if a < i {
                assert(new_ids[b] == old_ids[b - 1]);
                if b - 1 > i {
                    assert(seq_lt(old_ids[i as int], old_ids[b - 1]));
                    crate::text::lemma_seq_lt_transitive(id@, old_ids[i as int], old_ids[b - 1]);
                }
                crate::text::lemma_seq_lt_transitive(old_ids[a], id@, old_ids[b - 1]);
            } else if a == i {
                assert(new_ids[b] == old_ids[b - 1]);
                if b - 1 > i {
                    crate::text::lemma_seq_lt_transitive(id@, old_ids[i as int], old_ids[b - 1]);
                }
            } else {
                assert(new_ids[a] == old_ids[a - 1]);
                assert(new_ids[b] == old_ids[b - 1]);
            }
        }
        assert(new_ids.to_set() =~= old_ids.to_set().insert(id@)) by {
            assert forall|x: Seq<char>| new_ids.to_set().contains(x) <==> old_ids.to_set().insert(
                id@,
            ).contains(x) by {
                if new_ids.to_set().contains(x) {
                    let k = choose|k: int| 0 <= k < new_ids.len() && new_ids[k] == x;
                    if k < i {
                        assert(old_ids[k] == x);
                    } else if k > i {
                        assert(old_ids[k - 1] == x);
                    }
                }
                if old_ids.to_set().contains(x) {
                    let k = choose|k: int| 0 <= k < old_ids.len() && old_ids[k] == x;
                    if k < i {
                        assert(new_ids[k] == x);
                    } else {
                        assert(new_ids[k + 1] == x);
                    }
                }
                if x == id@ {
                    assert(new_ids[i as int] == x);
                }
            }
        }
    }
}

impl PolicySet {
    #[verifier::type_invariant]
    closed spec fn wf(self) -> bool {
        valid_document(self.document)
    }

    /// The validated document this policy evaluates.
    pub closed spec fn document(&self) -> PolicyDocument {
        self.document
    }

    /// Validate `document` and, only if valid, wrap it as an evaluable
    /// policy: the policy id must be non-empty and every rule must have a
    /// non-empty id unique in the document, at least one condition, at
    /// most one condition per field, and a recognised action. The error
    /// reported is the first one in document order.
    pub fn from_document(document: PolicyDocument) -> (r: Result<Self, PolicyError>)
        ensures
            r is Ok <==> valid_document(document),
            r matches Ok(set) ==> set.document() == document,
            r matches Err(e) ==> document_error(document, e),
    {
        if document.id.0.as_str().unicode_len() == 0 {
            return Err(PolicyError::EmptyPolicyId);
        }
        let mut i: usize = 0;
        while i < document.rules.len()
            invariant
                i <= document.rules@.len(),
                document.id@.len() > 0,
                forall|k: int| 0 <= k < i ==> #[trigger] rule_error(document.rules@, k) is None,
            decreases document.rules.len() - i,
        {
            match check_rule(&document.rules, i) {
                Some(e) => {
                    return Err(e);
                },
                None => {},
            }
            i = i + 1;
        }
        Ok(PolicySet { document })
    }

    /// Unwrap the envelope's schema version, then validate its payload as
    /// [`PolicySet::from_document`] does.
    pub fn from_versioned(envelope: Versioned<PolicyDocument>) -> (r: Result<Self, PolicyError>)
        ensures
            envelope.version != DOMAIN_SCHEMA_VERSION ==> r == Err::<PolicySet, PolicyError>(
                PolicyError::UnsupportedVersion(
                    UnsupportedVersion {
                        found: envelope.version,
                        expected: DOMAIN_SCHEMA_VERSION,
                    },
                ),
            ),
            envelope.version == DOMAIN_SCHEMA_VERSION ==> {
                &&& r is Ok <==> valid_document(envelope.payload)
                &&& r matches Ok(set) ==> set.document() == envelope.payload
                &&& r matches Err(e) ==> document_error(envelope.payload, e)
            },
    {
        match envelope.into_current() {
            Ok(document) => Self::from_document(document),
            Err(e) => Err(PolicyError::from(e)),
        }
    }

    /// Which policy, which revision, under this build's schema version.
    pub fn provenance(&self) -> (p: PolicyProvenance)
        ensures
            p@.policy_id == self.document().id@,
            p.policy_revision == self.document().revision,
            p.schema_version == DOMAIN_SCHEMA_VERSION,
    {
        PolicyProvenance {
            policy_id: self.document.id.duplicate(),
            policy_revision: self.document.revision,
            schema_version: DOMAIN_SCHEMA_VERSION,
        }
    }

    /// Evaluate this policy against an observed `context` and `request`.
    /// Every rule is evaluated; precedence: a definitively matching deny
    /// rule, then an indeterminate deny rule, then a definitively matching
    /// allow rule, then no matching rule (deny).
    pub fn evaluate(&self, context: &ExecutionContext, request: &ComputeRequest) -> (d:
        PolicyDecision)
        ensures
            d.spec_effect_of() == spec_effect(self.document().rules@, *context, *request),
            reason_fits(d.spec_reason_of(), self.document().rules@, *context, *request),
            d.spec_policy_of()@.policy_id == self.document().id@,
            d.spec_policy_of().policy_revision == self.document().revision,
            d.spec_policy_of().schema_version == DOMAIN_SCHEMA_VERSION,
    {
        let ghost rules = self.document.rules@;
        let mut allow: Vec<RuleId> = Vec::new();
        let mut deny: Vec<RuleId> = Vec::new();
        let mut ind: Vec<RuleId> = Vec::new();
        let mut i: usize = 0;
        proof {
            assert(id_seq(allow@).to_set() =~= Set::empty());
            assert(id_seq(deny@).to_set() =~= Set::empty());
            assert(id_seq(ind@).to_set() =~= Set::empty());
        }
        while i < self.document.rules.len()
            invariant
                i <= rules.len(),
                rules == self.document.rules@,
                strictly_sorted(id_seq(allow@)),
                strictly_sorted(id_seq(deny@)),
                strictly_sorted(id_seq(ind@)),
                id_seq(allow@).to_set() == hits(
                    rules.subrange(0, i as int),
                    *context,
                    *request,
                    Effect::Allow,
                    ConditionOutcome::Matched,
                ),
                id_seq(deny@).to_set() == hits(
                    rules.subrange(0, i as int),
                    *context,
                    *request,
                    Effect::Deny,
                    ConditionOutcome::Matched,
                ),
                id_seq(ind@).to_set() == hits(
                    rules.subrange(0, i as int),
                    *context,
                    *request,
                    Effect::Deny,
                    ConditionOutcome::Indeterminate,
                ),
            decreases rules.len() - i,
        {
            let rule = &self.document.rules[i];
            let outcome = rule.evaluate(context, request);
            let ghost pre = rules.subrange(0, i as int);
            let ghost post = rules.subrange(0, i + 1);
            proof {
                assert(post =~= pre.push(rules[i as int]));
            }
            match outcome {
                Some(ConditionOutcome::Matched) => match rule.effect {
                    Effect::Allow => {
                        insert_sorted(&mut allow, &rule.id);
                    },
                    Effect::Deny => {
                        insert_sorted(&mut deny, &rule.id);
                    },
                },
                Some(ConditionOutcome::Indeterminate) => {
                    if rule.effect == Effect::Deny {
                        insert_sorted(&mut ind, &rule.id);
                    }
                },
                _ => {},
            }
            proof {
                lemma_hits_push(pre, rules[i as int], *context, *request);
            }
            i = i + 1;
        }
        proof {
            assert(rules.subrange(0, rules.len() as int) =~= rules);
        }
        let deny_empty = deny.len() == 0;
        let ind_empty = ind.len() == 0;
        let allow_empty = allow.len() == 0;
        proof {
            lemma_empty_iff(allow@);
            lemma_empty_iff(deny@);
            lemma_empty_iff(ind@);
        }
        let (effect, reason) = if !deny_empty {
            (
                Effect::Deny,
                DecisionReason::ExplicitDeny { matched_rules: deny, overridden_allow_rules: allow },
            )
        } else if !ind_empty {
            (Effect::Deny, DecisionReason::IndeterminateEvidence { rules: ind })
        } else if !allow_empty {
            (Effect::Allow, DecisionReason::ExplicitAllow { matched_rules: allow })
        } else {
            (Effect::Deny, DecisionReason::NoMatchingRule)
        };
        PolicyDecision { effect, reason, policy: self.provenance() }
    }
}

/// A list is empty exactly when its id set is.
proof fn lemma_empty_iff(v: Seq<RuleId>)
    ensures
        (v.len() == 0) == id_seq(v).to_set().is_empty(),
{
    if v.len() > 0 {
        assert(id_seq(v).to_set().contains(id_seq(v)[0]));
    } else {
        assert(id_seq(v).to_set() =~= Set::empty());
    }
}

/// Extending the rule prefix by one rule adds that rule's id to exactly
/// the hit set its effect and outcome select.
proof fn lemma_hits_push(pre: Seq<Rule>, r: Rule, ctx: ExecutionContext, req: ComputeRequest)
    ensures
        forall|e: Effect, o: ConditionOutcome|
            #[trigger] hits(pre.push(r), ctx, req, e, o) == if r.effect == e && rule_outcome(
                r,
                ctx,
                req,
            ) == Some(o) {
                hits(pre, ctx, req, e, o).insert(r.id@)
            } else {
                hits(pre, ctx, req, e, o)
            },
{
    assert forall|e: Effect, o: ConditionOutcome|
        #[trigger] hits(pre.push(r), ctx, req, e, o) == if r.effect == e && rule_outcome(
            r,
            ctx,
            req,
        ) == Some(o) {
            hits(pre, ctx, req, e, o).insert(r.id@)
        } else {
            hits(pre, ctx, req, e, o)
        } by {
        let post = pre.push(r);
        let lhs = hits(post, ctx, req, e, o);
        let rhs = if r.effect == e && rule_outcome(r, ctx, req) == Some(o) {
            hits(pre, ctx, req, e, o).insert(r.id@)
        } else {
            hits(pre, ctx, req, e, o)
        };
        assert forall|id: Seq<char>| lhs.contains(id) <==> rhs.contains(id) by {
            if lhs.contains(id) {
                let i = choose|i: int|
                    0 <= i < post.len() && (#[trigger] post[i]).id@ == id && post[i].effect == e
                        && rule_outcome(post[i], ctx, req) == Some(o);
                if i < pre.len() {
                    assert(pre[i] == post[i]);
                }
            }
            if hits(pre, ctx, req, e, o).contains(id) {
                let i = choose|i: int|
                    0 <= i < pre.len() && (#[trigger] pre[i]).id@ == id && pre[i].effect == e
                        && rule_outcome(pre[i], ctx, req) == Some(o);
                assert(post[i] == pre[i]);
            }
            if r.effect == e && rule_outcome(r, ctx, req) == Some(o) && id == r.id@ {
                assert(post[pre.len() as int] == r);
            }
        }
        assert(lhs =~= rhs);
    }
}

/// Validate rule `i` of `rules` (which follows only valid rules).
fn check_rule(rules: &Vec<Rule>, i: usize) -> (e: Option<PolicyError>)
    requires
        i < rules@.len(),
    ensures
        e == rule_error(rules@, i as int),
{
    let rule = &rules[i];
    if rule.id.0.as_str().unicode_len() == 0 {
        return Some(PolicyError::EmptyRuleId);
    }
    let mut j: usize = 0;
    while j < i
        invariant
            j <= i,
            i < rules@.len(),
            rule.id@.len() > 0,
            rule == &rules@[i as int],
            forall|k: int| 0 <= k < j ==> (#[trigger] rules@[k]).id@ != rule.id@,
        decreases i - j,
    {
        if rules[j].id.0 == rule.id.0 {
            assert((rules@[j as int]).id@ == rule.id@);
            return Some(PolicyError::DuplicateRuleId { rule: rule.id.duplicate() });
        }
        j = j + 1;
    }
    if rule.conditions.len() == 0 {
        return Some(PolicyError::RuleWithoutConditions { rule: rule.id.duplicate() });
    }
    // At most one condition per field.
    let mut a: usize = 0;
    while a < rule.conditions.len()
        invariant
            i < rules@.len(),
            rule == &rules@[i as int],
            rule.id@.len() > 0,
            rule.conditions@.len() > 0,
            forall|k: int| 0 <= k < i ==> (#[trigger] rules@[k]).id@ != rule.id@,
            a <= rule.conditions@.len(),
            forall|x: int, y: int|
                0 <= x < y < rule.conditions@.len() && x < a ==> condition_kind(
                    #[trigger] rule.conditions@[x],
                ) != condition_kind(#[trigger] rule.conditions@[y]),
        decreases rule.conditions.len() - a,
    {
        let ka = rule.conditions[a].kind();
        let mut b: usize = a + 1;
        while b < rule.conditions.len()
            invariant
                i < rules@.len(),
                rule == &rules@[i as int],
                rule.id@.len() > 0,
                rule.conditions@.len() > 0,
                forall|k: int| 0 <= k < i ==> (#[trigger] rules@[k]).id@ != rule.id@,
                a < b <= rule.conditions@.len(),
                ka == condition_kind(rule.conditions@[a as int]),
                forall|y: int|
                    a < y < b ==> condition_kind(rule.conditions@[a as int]) != condition_kind(
                        #[trigger] rule.conditions@[y],
                    ),
            decreases rule.conditions.len() - b,
        {
            if rule.conditions[b].kind() == ka {
                proof {
                    assert(has_duplicate_kind(*rule)) by {
                        assert(condition_kind(rule.conditions@[a as int]) == condition_kind(
                            rule.conditions@[b as int],
                        ));
                    }
                }
                return Some(PolicyError::DuplicateConditionKind { rule: rule.id.duplicate() });
            }
            b = b + 1;
        }
        a = a + 1;
    }
    if rule.action == Action::Unknown {
        return Some(PolicyError::UnknownActionInRule { rule: rule.id.duplicate() });
    }
    None
}


/// The abstract value of a [`DecisionReason`]: rule ids by value.
pub enum ReasonView {
    NoMatchingRule,
    ExplicitAllow(Seq<Seq<char>>),
    ExplicitDeny(Seq<Seq<char>>, Seq<Seq<char>>),
    IndeterminateEvidence(Seq<Seq<char>>),
}

pub open spec fn reason_view(r: DecisionReason) -> ReasonView {
    match r {
        DecisionReason::NoMatchingRule => ReasonView::NoMatchingRule,
        DecisionReason::ExplicitAllow { matched_rules } => ReasonView::ExplicitAllow(
            id_seq(matched_rules@),
        ),
        DecisionReason::ExplicitDeny { matched_rules, overridden_allow_rules } =>
            ReasonView::ExplicitDeny(id_seq(matched_rules@), id_seq(overridden_allow_rules@)),
        DecisionReason::IndeterminateEvidence { rules } => ReasonView::IndeterminateEvidence(
            id_seq(rules@),
        ),
    }
}

/// `d` is what [`PolicySet::evaluate`] returns for `doc` on `ctx`/`req`.
pub open spec fn is_evaluation(
    d: PolicyDecision,
    doc: PolicyDocument,
    ctx: ExecutionContext,
    req: ComputeRequest,
) -> bool {
    &&& d.spec_effect_of() == spec_effect(doc.rules@, ctx, req)
    &&& reason_fits(d.spec_reason_of(), doc.rules@, ctx, req)
    &&& d.spec_policy_of()@.policy_id == doc.id@
    &&& d.spec_policy_of().policy_revision == doc.revision
    &&& d.spec_policy_of().schema_version == DOMAIN_SCHEMA_VERSION
}

/// Two strictly sorted sequences with the same elements are identical.
pub proof fn lemma_sorted_unique(a: Seq<Seq<char>>, b: Seq<Seq<char>>)
    requires
        strictly_sorted(a),
        strictly_sorted(b),
        a.to_set() == b.to_set(),
    ensures
        a == b,
    decreases a.len(),
{
    if a.len() == 0 {
        if b.len() > 0 {
            assert(b.to_set().contains(b[0]));
        }
        assert(a =~= b);
        return;
    }
    assert(a.to_set().contains(a[0]));
    if b.len() == 0 {
        assert(b.to_set().contains(a[0]));
    }
    let k = choose|k: int| 0 <= k < b.len() && b[k] == a[0];
    assert(a.to_set().contains(b[0]));
    let m = choose|m: int| 0 <= m < a.len() && a[m] == b[0];
    if k > 0 {
        assert(seq_lt(b[0], b[k]));
        if m > 0 {
            assert(seq_lt(a[0], a[m]));
            crate::text::lemma_seq_lt_asymmetric(a[0], b[0]);
        } else {
            crate::text::lemma_seq_lt_asymmetric(b[0], b[0]);
        }
    }
    assert(b[0] == a[0]);
    let ta = a.drop_first();
    let tb = b.drop_first();
    assert forall|x: Seq<char>| ta.to_set().contains(x) <==> tb.to_set().contains(x) by {
        if ta.to_set().contains(x) {
            let i = choose|i: int| 0 <= i < ta.len() && ta[i] == x;
            assert(a[i + 1] == x);
            assert(seq_lt(a[0], x));
            crate::text::lemma_seq_lt_asymmetric(a[0], x);
            assert(b.to_set().contains(x));
            let j = choose|j: int| 0 <= j < b.len() && b[j] == x;
            assert(j != 0);
            assert(tb[j - 1] == x);
        }
        if tb.to_set().contains(x) {
            let i = choose|i: int| 0 <= i < tb.len() && tb[i] == x;
            assert(b[i + 1] == x);
            assert(seq_lt(b[0], x));
            crate::text::lemma_seq_lt_asymmetric(b[0], x);
            assert(a.to_set().contains(x));
            let j = choose|j: int| 0 <= j < a.len() && a[j] == x;
            assert(j != 0);
            assert(ta[j - 1] == x);
        }
    }
    assert(ta.to_set() =~= tb.to_set());
    assert forall|i: int, j: int| 0 <= i < j < ta.len() implies seq_lt(
        #[trigger] ta[i],
        #[trigger] ta[j],
    ) by {
        assert(ta[i] == a[i + 1] && ta[j] == a[j + 1]);
    }
    assert forall|i: int, j: int| 0 <= i < j < tb.len() implies seq_lt(
        #[trigger] tb[i],
        #[trigger] tb[j],
    ) by {
        assert(tb[i] == b[i + 1] && tb[j] == b[j + 1]);
    }
    lemma_sorted_unique(ta, tb);
    assert(a =~= seq![a[0]] + ta);
    assert(b =~= seq![b[0]] + tb);
}

/// Hit sets depend only on which rules a document holds.
proof fn lemma_hits_same_rules(
    r1: Seq<Rule>,
    r2: Seq<Rule>,
    ctx: ExecutionContext,
    req: ComputeRequest,
    e: Effect,
    o: ConditionOutcome,
)
    requires
        r1.to_set() == r2.to_set(),
    ensures
        hits(r1, ctx, req, e, o) == hits(r2, ctx, req, e, o),
{
    assert forall|id: Seq<char>|
        hits(r1, ctx, req, e, o).contains(id) <==> hits(r2, ctx, req, e, o).contains(id) by {
        if hits(r1, ctx, req, e, o).contains(id) {
            let i = choose|i: int|
                0 <= i < r1.len() && (#[trigger] r1[i]).id@ == id && r1[i].effect == e
                    && rule_outcome(r1[i], ctx, req) == Some(o);
            assert(r1.to_set().contains(r1[i]));
            let j = choose|j: int| 0 <= j < r2.len() && r2[j] == r1[i];
            assert(r2[j].id@ == id);
        }
        if hits(r2, ctx, req, e, o).contains(id) {
            let i = choose|i: int|
                0 <= i < r2.len() && (#[trigger] r2[i]).id@ == id && r2[i].effect == e
                    && rule_outcome(r2[i], ctx, req) == Some(o);
            assert(r2.to_set().contains(r2[i]));
            let j = choose|j: int| 0 <= j < r1.len() && r1[j] == r2[i];
            assert(r1[j].id@ == id);
        }
    }
    assert(hits(r1, ctx, req, e, o) =~= hits(r2, ctx, req, e, o));
}

/// Law (deny-overrides, order independent): the decision is a function of
/// the set of rules a policy holds, never of their authoring order —
/// two policies with the same id, revision and rules, in any order and
/// repetition, give the same effect, the same explanation (rule ids by
/// value, in the same order) and the same provenance.
pub proof fn law_decision_ignores_rule_order(
    doc1: PolicyDocument,
    doc2: PolicyDocument,
    ctx: ExecutionContext,
    req: ComputeRequest,
    d1: PolicyDecision,
    d2: PolicyDecision,
)
    requires
        doc1.id@ == doc2.id@,
        doc1.revision == doc2.revision,
        doc1.rules@.to_set() == doc2.rules@.to_set(),
        is_evaluation(d1, doc1, ctx, req),
        is_evaluation(d2, doc2, ctx, req),
    ensures
        d1.spec_effect_of() == d2.spec_effect_of(),
        reason_view(d1.spec_reason_of()) == reason_view(d2.spec_reason_of()),
        d1.spec_policy_of()@ == d2.spec_policy_of()@,
{
    let (r1, r2) = (doc1.rules@, doc2.rules@);
    lemma_hits_same_rules(r1, r2, ctx, req, Effect::Allow, ConditionOutcome::Matched);
    lemma_hits_same_rules(r1, r2, ctx, req, Effect::Deny, ConditionOutcome::Matched);
    lemma_hits_same_rules(r1, r2, ctx, req, Effect::Deny, ConditionOutcome::Indeterminate);
    match (d1.spec_reason_of(), d2.spec_reason_of()) {
        (
            DecisionReason::ExplicitDeny { matched_rules: a1, overridden_allow_rules: b1 },
            DecisionReason::ExplicitDeny { matched_rules: a2, overridden_allow_rules: b2 },
        ) => {
            lemma_sorted_unique(id_seq(a1@), id_seq(a2@));
            lemma_sorted_unique(id_seq(b1@), id_seq(b2@));
        },
        (
            DecisionReason::IndeterminateEvidence { rules: a1 },
            DecisionReason::IndeterminateEvidence { rules: a2 },
        ) => {
            lemma_sorted_unique(id_seq(a1@), id_seq(a2@));
        },
        (
            DecisionReason::ExplicitAllow { matched_rules: a1 },
            DecisionReason::ExplicitAllow { matched_rules: a2 },
        ) => {
            lemma_sorted_unique(id_seq(a1@), id_seq(a2@));
        },
        _ => {},
    }
}

/// Every piece of evidence a condition can read is either absent or
/// self-asserted.
pub open spec fn only_self_asserted(ctx: ExecutionContext) -> bool {
    &&& !usable_evidence(ctx.workload.uid)
    &&& !usable_evidence(ctx.workload.gid)
    &&& !usable_evidence(ctx.workload.executable_path)
    &&& !usable_evidence(ctx.workload.executable_hash)
    &&& !usable_evidence(ctx.cgroup_path)
}

/// Present evidence from a source other than the workload itself.
pub open spec fn usable_evidence<T>(e: Evidence<T>) -> bool {
    crate::identity::usable(e)
}

/// Law (self-assertion is never authority): when every signal a condition
/// can inspect is absent or self-asserted, a valid policy never allows —
/// whatever its rules say.
pub proof fn law_self_asserted_context_never_allows(
    doc: PolicyDocument,
    ctx: ExecutionContext,
    req: ComputeRequest,
)
    requires
        valid_document(doc),
        only_self_asserted(ctx),
    ensures
        spec_effect(doc.rules@, ctx, req) == Effect::Deny,
{
    let rules = doc.rules@;
    assert forall|i: int| 0 <= i < rules.len() implies rule_outcome(
        #[trigger] rules[i],
        ctx,
        req,
    ) != Some(ConditionOutcome::Matched) by {
        assert(rule_error(rules, i) is None);
        let r = rules[i];
        if r.resource@ == req.resource@ && r.action == req.action {
            let c = r.conditions@[0];
            assert(condition_outcome(c, ctx) != ConditionOutcome::Matched);
        }
    }
    if !allow_hits(rules, ctx, req).is_empty() {
        let id = allow_hits(rules, ctx, req).choose();
        assert(allow_hits(rules, ctx, req).contains(id));
    }
}

/// Law (default deny): an empty policy denies every request, with no
/// matching rule as its reason.
pub proof fn law_empty_policy_denies(
    doc: PolicyDocument,
    ctx: ExecutionContext,
    req: ComputeRequest,
    d: PolicyDecision,
)
    requires
        doc.rules@.len() == 0,
        is_evaluation(d, doc, ctx, req),
    ensures
        d.spec_effect_of() == Effect::Deny,
        d.spec_reason_of() == DecisionReason::NoMatchingRule,
{
    assert(allow_hits(doc.rules@, ctx, req) =~= Set::empty());
    assert(deny_hits(doc.rules@, ctx, req) =~= Set::empty());
    assert(indeterminate_deny_hits(doc.rules@, ctx, req) =~= Set::empty());
}


/// Law (an indeterminate deny fails closed): if some deny rule names the
/// requested resource and action, none of its conditions definitively
/// fails against the context and one of them cannot be determined, the
/// decision is `Deny` whatever allow rules matched, and its reason is
/// never an allow or "no matching rule". When no deny rule definitively
/// matched, the reason is indeterminate evidence naming that rule.
pub proof fn law_indeterminate_deny_fails_closed(
    rules: Seq<Rule>,
    ctx: ExecutionContext,
    req: ComputeRequest,
    i: int,
    reason: DecisionReason,
)
    requires
        0 <= i < rules.len(),
        rules[i].effect == Effect::Deny,
        rules[i].resource@ == req.resource@,
        rules[i].action == req.action,
        forall|j: int|
            0 <= j < rules[i].conditions@.len() ==> condition_outcome(
                #[trigger] rules[i].conditions@[j],
                ctx,
            ) != ConditionOutcome::NotMatched,
        exists|j: int|
            0 <= j < rules[i].conditions@.len() && condition_outcome(
                #[trigger] rules[i].conditions@[j],
                ctx,
            ) == ConditionOutcome::Indeterminate,
        reason_fits(reason, rules, ctx, req),
    ensures
        spec_effect(rules, ctx, req) == Effect::Deny,
        !(reason is ExplicitAllow),
        !(reason is NoMatchingRule),
        (forall|k: int|
            0 <= k < rules.len() && rules[k].effect == Effect::Deny ==> rule_outcome(
                #[trigger] rules[k],
                ctx,
                req,
            ) != Some(ConditionOutcome::Matched)) ==> (reason matches DecisionReason::IndeterminateEvidence {
            rules: r,
        } && id_seq(r@).contains(rules[i].id@)),
{
    assert(rule_outcome(rules[i], ctx, req) == Some(ConditionOutcome::Indeterminate));
    assert(indeterminate_deny_hits(rules, ctx, req).contains(rules[i].id@));
    if forall|k: int|
        0 <= k < rules.len() && rules[k].effect == Effect::Deny ==> rule_outcome(
            #[trigger] rules[k],
            ctx,
            req,
        ) != Some(ConditionOutcome::Matched) {
        assert(deny_hits(rules, ctx, req) =~= Set::<Seq<char>>::empty());
        if let DecisionReason::IndeterminateEvidence { rules: r } = reason {
            assert(id_seq(r@).to_set().contains(rules[i].id@));
        }
    }
}

/// Law (allow needs a clean sweep): the decision is `Allow` only when some
/// allow rule for the request definitively matched and no deny rule for
/// the request definitively matched or was indeterminate.
pub proof fn law_allow_requires_no_live_deny(rules: Seq<Rule>, ctx: ExecutionContext, req: ComputeRequest)
    ensures
        spec_effect(rules, ctx, req) == Effect::Allow ==> {
            &&& exists|k: int|
                0 <= k < rules.len() && (#[trigger] rules[k]).effect == Effect::Allow
                    && rule_outcome(rules[k], ctx, req) == Some(ConditionOutcome::Matched)
            &&& forall|k: int|
                0 <= k < rules.len() && (#[trigger] rules[k]).effect == Effect::Deny ==> rule_outcome(
                    rules[k],
                    ctx,
                    req,
                ) != Some(ConditionOutcome::Matched) && rule_outcome(rules[k], ctx, req) != Some(
                    ConditionOutcome::Indeterminate,
                )
        },
{
    if spec_effect(rules, ctx, req) == Effect::Allow {
        let id = allow_hits(rules, ctx, req).choose();
        assert(allow_hits(rules, ctx, req).contains(id));
        assert forall|k: int|
            0 <= k < rules.len() && (#[trigger] rules[k]).effect == Effect::Deny implies rule_outcome(
                rules[k],
                ctx,
                req,
            ) != Some(ConditionOutcome::Matched) && rule_outcome(rules[k], ctx, req) != Some(
                ConditionOutcome::Indeterminate,
            ) by {
            if rule_outcome(rules[k], ctx, req) == Some(ConditionOutcome::Matched) {
                assert(deny_hits(rules, ctx, req).contains(rules[k].id@));
            }
            if rule_outcome(rules[k], ctx, req) == Some(ConditionOutcome::Indeterminate) {
                assert(indeterminate_deny_hits(rules, ctx, req).contains(rules[k].id@));
            }
        }
    }
}

} // verus!
