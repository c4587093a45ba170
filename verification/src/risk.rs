//! Risk-based step-up classification of refusals.
//!
//! [`assess`] is a classification layer over refusals the session,
//! approval and delegation gates already produced — never a fourth
//! security check. It reads no fresh evidence, confers no authority, and
//! has no "admit" outcome: it only names *why* a refusal happened and lets
//! a deployment configure whether that reason is remediable (step-up) or a
//! hard deny. [`RiskSignal::UntrustedExecutionPath`] can never be
//! configured as a hard deny, since remembering the launcher is exactly
//! what remediates it.

use vstd::prelude::*;

use crate::approval::{ChangedDimension, RecallVerdict, RecallView};
use crate::delegation::{DelegationVerdict, DelegationView, ExceededBound};
use crate::identity::{Evidence, ExecutionContext};
use crate::session::{MembershipVerdict, MembershipView};
use crate::text::{is_prefix, sorted_texts, starts_with, string_of, texts_of, texts_sorted};

verus! {

/// One named trust-change signal a refusal can be classified under.
/// Declaration order is the order signals are listed in.
#[derive(Debug, Clone, Copy, PartialEq, Eq, Structural, PartialOrd, Ord)]
pub enum RiskSignal {
    /// No approval candidate exists, or a candidate's launcher path
    /// changed.
    UnknownLauncher,
    /// The observed executable path starts with a configured untrusted
    /// prefix.
    UntrustedExecutionPath,
    /// A candidate's launcher digest changed.
    LauncherIdentityChanged,
    /// A candidate's owner uid changed, or delegation exceeded the owner
    /// uid bound.
    PrivilegeTransition,
    /// A privilege transition towards an observed uid of 0 — never on
    /// either condition alone.
    PrivilegeEscalationToRoot,
    /// The requester is not a confirmed member of a tracked session.
    DetachedExecution,
    /// Delegation exceeded its resource, action, depth or duration bound.
    DelegationScopeExpanded,
    /// A candidate's resource capabilities or policy revision changed.
    SecurityPostureChanged,
    /// A candidate's cgroup changed, or delegation exceeded its cgroup or
    /// session-key bound.
    ContextBoundaryChanged,
    /// Delegation crossed a configured trust-transition marker.
    TrustTransition,
    /// One of the classified verdicts was itself indeterminate.
    EvidenceIndeterminate,
}

/// The declaration-order position of a signal.
pub open spec fn signal_rank(s: RiskSignal) -> int {
    match s {
        RiskSignal::UnknownLauncher => 0,
        RiskSignal::UntrustedExecutionPath => 1,
        RiskSignal::LauncherIdentityChanged => 2,
        RiskSignal::PrivilegeTransition => 3,
        RiskSignal::PrivilegeEscalationToRoot => 4,
        RiskSignal::DetachedExecution => 5,
        RiskSignal::DelegationScopeExpanded => 6,
        RiskSignal::SecurityPostureChanged => 7,
        RiskSignal::ContextBoundaryChanged => 8,
        RiskSignal::TrustTransition => 9,
        RiskSignal::EvidenceIndeterminate => 10,
    }
}

/// The signal at declaration-order position `i`.
pub open spec fn signal_at(i: int) -> RiskSignal {
    if i == 0 {
        RiskSignal::UnknownLauncher
    } else if i == 1 {
        RiskSignal::UntrustedExecutionPath
    } else if i == 2 {
        RiskSignal::LauncherIdentityChanged
    } else if i == 3 {
        RiskSignal::PrivilegeTransition
    } else if i == 4 {
        RiskSignal::PrivilegeEscalationToRoot
    } else if i == 5 {
        RiskSignal::DetachedExecution
    } else if i == 6 {
        RiskSignal::DelegationScopeExpanded
    } else if i == 7 {
        RiskSignal::SecurityPostureChanged
    } else if i == 8 {
        RiskSignal::ContextBoundaryChanged
    } else if i == 9 {
        RiskSignal::TrustTransition
    } else {
        RiskSignal::EvidenceIndeterminate
    }
}

/// The number of signals.
pub const SIGNAL_COUNT: usize = 11usize;

impl RiskSignal {
    /// The declaration-order position of this signal.
    pub fn rank(self) -> (r: usize)
        ensures
            r == signal_rank(self),
    {
        match self {
            RiskSignal::UnknownLauncher => 0,
            RiskSignal::UntrustedExecutionPath => 1,
            RiskSignal::LauncherIdentityChanged => 2,
            RiskSignal::PrivilegeTransition => 3,
            RiskSignal::PrivilegeEscalationToRoot => 4,
            RiskSignal::DetachedExecution => 5,
            RiskSignal::DelegationScopeExpanded => 6,
            RiskSignal::SecurityPostureChanged => 7,
            RiskSignal::ContextBoundaryChanged => 8,
            RiskSignal::TrustTransition => 9,
            RiskSignal::EvidenceIndeterminate => 10,
        }
    }

    /// The signal at position `i` of the declaration order.
    pub fn at(i: usize) -> (s: RiskSignal)
        requires
            i < SIGNAL_COUNT,
        ensures
            s == signal_at(i as int),
            signal_rank(s) == i,
    {
        if i == 0 {
            RiskSignal::UnknownLauncher
        } else if i == 1 {
            RiskSignal::UntrustedExecutionPath
        } else if i == 2 {
            RiskSignal::LauncherIdentityChanged
        } else if i == 3 {
            RiskSignal::PrivilegeTransition
        } else if i == 4 {
            RiskSignal::PrivilegeEscalationToRoot
        } else if i == 5 {
            RiskSignal::DetachedExecution
        } else if i == 6 {
            RiskSignal::DelegationScopeExpanded
        } else if i == 7 {
            RiskSignal::SecurityPostureChanged
        } else if i == 8 {
            RiskSignal::ContextBoundaryChanged
        } else if i == 9 {
            RiskSignal::TrustTransition
        } else {
            RiskSignal::EvidenceIndeterminate
        }
    }

    /// Every signal, in declaration order.
    pub fn all() -> (v: Vec<RiskSignal>)
        ensures
            v@ == Seq::new(11, |i: int| signal_at(i)),
    {
        let mut v: Vec<RiskSignal> = Vec::new();
        let mut i: usize = 0;
        while i < SIGNAL_COUNT
            invariant
                i <= SIGNAL_COUNT,
                v@ == Seq::new(i as nat, |k: int| signal_at(k)),
            decreases SIGNAL_COUNT - i,
        {
            v.push(RiskSignal::at(i));
            assert(v@ =~= Seq::new((i + 1) as nat, |k: int| signal_at(k)));
            i = i + 1;
        }
        v
    }
}

/// What a policy does with one fired signal. Unconfigured signals are
/// `Informational`: configuring nothing never adds a denial.
#[derive(Debug, Clone, Copy, PartialEq, Eq, Structural)]
pub enum SignalDisposition {
    /// Recorded for audit only.
    Informational,
    /// Elevates the refusal to a step-up requirement.
    StepUp,
    /// Elevates the refusal to a hard deny.
    Deny,
}

impl Default for SignalDisposition {
    fn default() -> (d: Self)
        ensures
            d == SignalDisposition::Informational,
    {
        SignalDisposition::Informational
    }
}

/// Why [`StepUpPolicy::new`] rejected a configuration.
#[derive(Debug, Clone, Copy, PartialEq, Eq, Structural)]
pub enum StepUpPolicyError {
    PathSignalCannotDeny,
}

impl StepUpPolicyError {
    /// The human-readable description of this error.
    pub fn message(&self) -> (s: String)
        ensures
            s@ == "RiskSignal::UntrustedExecutionPath cannot be mapped to SignalDisposition::Deny — see the eltanin_core::risk module docs for why this signal must stay remediable"@,
    {
        string_of(
            "RiskSignal::UntrustedExecutionPath cannot be mapped to SignalDisposition::Deny — see the eltanin_core::risk module docs for why this signal must stay remediable",
        )
    }
}

/// The disposition table after applying `entries` in order, a later entry
/// for a signal replacing an earlier one; `None` where nothing was set.
pub open spec fn disposition_table(entries: Seq<(RiskSignal, SignalDisposition)>) -> Seq<
    Option<SignalDisposition>,
>
    decreases entries.len(),
{
    if entries.len() == 0 {
        Seq::new(11, |i: int| None::<SignalDisposition>)
    } else {
        let last = entries.last();
        disposition_table(entries.drop_last()).update(signal_rank(last.0), Some(last.1))
    }
}

/// The effective disposition of `s` in `table`.
pub open spec fn effective(table: Seq<Option<SignalDisposition>>, s: RiskSignal) -> SignalDisposition {
    match table[signal_rank(s)] {
        Some(d) => d,
        None => SignalDisposition::Informational,
    }
}

/// The deployment-configured classification policy. Only
/// [`StepUpPolicy::new`] builds one.
#[derive(Debug, PartialEq, Eq)]
pub struct StepUpPolicy {
    dispositions: Vec<Option<SignalDisposition>>,
    untrusted_path_prefixes: Vec<String>,
}

/// The abstract value of a [`StepUpPolicy`].
pub struct StepUpPolicyView {
    /// One slot per signal: the configured disposition, if any.
    pub dispositions: Seq<Option<SignalDisposition>>,
    pub untrusted_path_prefixes: Set<Seq<char>>,
}

impl View for StepUpPolicy {
    type V = StepUpPolicyView;

    closed spec fn view(&self) -> StepUpPolicyView {
        StepUpPolicyView {
            dispositions: self.dispositions@,
            untrusted_path_prefixes: texts_of(self.untrusted_path_prefixes@).to_set(),
        }
    }
}

/// A copy of a list of strings.
fn copy_texts(v: &Vec<String>) -> (r: Vec<String>)
    ensures
        r@ == v@,
{
    let mut r: Vec<String> = Vec::new();
    let mut i: usize = 0;
    while i < v.len()
        invariant
            i <= v@.len(),
            r@ == v@.take(i as int),
        decreases v.len() - i,
    {
        r.push(v[i].clone());
        assert(r@ =~= v@.take(i + 1));
        i = i + 1;
    }
    assert(v@.take(i as int) =~= v@);
    r
}

impl StepUpPolicy {
    #[verifier::type_invariant]
    closed spec fn wf(self) -> bool {
        &&& self.dispositions@.len() == SIGNAL_COUNT
        &&& self.dispositions@[1] != Some(SignalDisposition::Deny)
        &&& texts_sorted(texts_of(self.untrusted_path_prefixes@))
    }

    /// A policy from `(signal, disposition)` entries (a later entry for the
    /// same signal wins) and untrusted path prefixes. Refused when the
    /// untrusted-path signal ends up mapped to `Deny`.
    pub fn new(
        dispositions: Vec<(RiskSignal, SignalDisposition)>,
        untrusted_path_prefixes: Vec<String>,
    ) -> (r: Result<Self, StepUpPolicyError>)
        ensures
            disposition_table(dispositions@)[1] == Some(SignalDisposition::Deny) ==> r == Err::<
                StepUpPolicy,
                StepUpPolicyError,
            >(StepUpPolicyError::PathSignalCannotDeny),
            disposition_table(dispositions@)[1] != Some(SignalDisposition::Deny) ==> (r matches Ok(
                p,
            ) && p@.dispositions == disposition_table(dispositions@)
                && p@.untrusted_path_prefixes == texts_of(untrusted_path_prefixes@).to_set()),
    {
        let mut table: Vec<Option<SignalDisposition>> = Vec::new();
        let mut i: usize = 0;
        while i < SIGNAL_COUNT
            invariant
                i <= SIGNAL_COUNT,
                table@ == Seq::new(i as nat, |k: int| None::<SignalDisposition>),
            decreases SIGNAL_COUNT - i,
        {
            table.push(None);
            assert(table@ =~= Seq::new((i + 1) as nat, |k: int| None::<SignalDisposition>));
            i = i + 1;
        }
        let mut j: usize = 0;
        while j < dispositions.len()
            invariant
                j <= dispositions@.len(),
                table@ == disposition_table(dispositions@.take(j as int)),
                table@.len() == SIGNAL_COUNT,
            decreases dispositions.len() - j,
        {
            let (signal, disposition) = dispositions[j];
            proof {
                assert(dispositions@.take(j + 1).drop_last() =~= dispositions@.take(j as int));
            }
            table.set(signal.rank(), Some(disposition));
            j = j + 1;
        }
        proof {
            assert(dispositions@.take(j as int) =~= dispositions@);
        }
        if table[1] == Some(SignalDisposition::Deny) {
            return Err(StepUpPolicyError::PathSignalCannotDeny);
        }
        let prefixes = sorted_texts(&untrusted_path_prefixes);
        Ok(StepUpPolicy { dispositions: table, untrusted_path_prefixes: prefixes })
    }

    /// The configured disposition for `signal`; `Informational` when
    /// unconfigured.
    pub fn disposition(&self, signal: RiskSignal) -> (d: SignalDisposition)
        ensures
            d == effective(self@.dispositions, signal),
            effective(self@.dispositions, RiskSignal::UntrustedExecutionPath)
                != SignalDisposition::Deny,
    {
        proof {
            use_type_invariant(self);
        }
        match self.dispositions[signal.rank()] {
            Some(d) => d,
            None => SignalDisposition::Informational,
        }
    }

    /// The untrusted path prefixes, sorted without repeats.
    pub fn untrusted_path_prefixes(&self) -> (r: &Vec<String>)
        ensures
            texts_of(r@).to_set() == self@.untrusted_path_prefixes,
            texts_sorted(texts_of(r@)),
    {
        proof {
            use_type_invariant(self);
        }
        &self.untrusted_path_prefixes
    }
}

impl Clone for StepUpPolicy {
    fn clone(&self) -> (p: Self)
        ensures
            p@ == self@,
    {
        proof {
            use_type_invariant(self);
        }
        let mut table: Vec<Option<SignalDisposition>> = Vec::new();
        let mut i: usize = 0;
        while i < SIGNAL_COUNT
            invariant
                i <= SIGNAL_COUNT,
                self.dispositions@.len() == SIGNAL_COUNT,
                table@ == self.dispositions@.take(i as int),
            decreases SIGNAL_COUNT - i,
        {
            table.push(self.dispositions[i]);
            assert(table@ =~= self.dispositions@.take(i + 1));
            i = i + 1;
        }
        assert(table@ =~= self.dispositions@);
        StepUpPolicy {
            dispositions: table,
            untrusted_path_prefixes: copy_texts(&self.untrusted_path_prefixes),
        }
    }
}

/// What the refusing gates decided, as read by the classifier.
pub struct GateVerdicts<'a> {
    /// The session gate's membership verdict.
    pub membership: &'a MembershipVerdict,
    /// Every approval candidate's recall verdict from the refusal scan.
    pub recall: &'a [RecallVerdict],
    /// The delegation gate's verdict, when delegation is configured.
    pub delegation: Option<&'a DelegationVerdict>,
}

/// The outcome of classifying a refusal. Every variant is still a
/// refusal: there is no admitting outcome.
#[derive(Debug, Clone, PartialEq, Eq)]
pub enum StepUpVerdict {
    /// No fired signal asks for more than a record.
    NoStepUp { signals: Vec<RiskSignal> },
    /// Some fired signal asks for step-up and none for a hard deny.
    StepUpRequired { signals: Vec<RiskSignal> },
    /// Some fired signal asks for a hard deny.
    RiskDenied { signals: Vec<RiskSignal> },
}

/// The abstract value of a [`StepUpVerdict`].
pub enum StepUpView {
    NoStepUp(Seq<RiskSignal>),
    StepUpRequired(Seq<RiskSignal>),
    RiskDenied(Seq<RiskSignal>),
}

impl View for StepUpVerdict {
    type V = StepUpView;

    open spec fn view(&self) -> StepUpView {
        match self {
            StepUpVerdict::NoStepUp { signals } => StepUpView::NoStepUp(signals@),
            StepUpVerdict::StepUpRequired { signals } => StepUpView::StepUpRequired(signals@),
            StepUpVerdict::RiskDenied { signals } => StepUpView::RiskDenied(signals@),
        }
    }
}

/// The abstract values of the recall verdicts.
pub open spec fn recall_views(v: Seq<RecallVerdict>) -> Seq<RecallView> {
    v.map_values(|r: RecallVerdict| r@)
}

/// Some recall verdict lists `d` as changed.
pub open spec fn recall_changed(recall: Seq<RecallView>, d: ChangedDimension) -> bool {
    exists|i: int|
        0 <= i < recall.len() && (#[trigger] recall[i] matches RecallView::NotMatched(changed)
            && changed.contains(d))
}

/// The delegation verdict was a refusal listing `b`.
pub open spec fn delegation_exceeds(delegation: Option<DelegationView>, b: ExceededBound) -> bool {
    delegation matches Some(DelegationView::NotAdmitted(exceeded)) && exceeded.contains(b)
}

/// Whether `signal` fires for these verdicts and this observation.
pub open spec fn fires(
    signal: RiskSignal,
    membership: MembershipView,
    recall: Seq<RecallView>,
    delegation: Option<DelegationView>,
    observed: ExecutionContext,
    prefixes: Set<Seq<char>>,
) -> bool {
    let transition = recall_changed(recall, ChangedDimension::OwnerUid) || delegation_exceeds(
        delegation,
        ExceededBound::OwnerUid,
    );
    match signal {
        RiskSignal::UnknownLauncher => recall.len() == 0 || recall_changed(
            recall,
            ChangedDimension::LauncherPath,
        ),
        RiskSignal::UntrustedExecutionPath => observed.workload.executable_path is Present && exists|
            p: Seq<char>,
        | prefixes.contains(p) && is_prefix(p, observed.workload.executable_path->value@),
        RiskSignal::LauncherIdentityChanged => recall_changed(
            recall,
            ChangedDimension::LauncherDigest,
        ),
        RiskSignal::PrivilegeTransition => transition,
        RiskSignal::PrivilegeEscalationToRoot => transition && observed.workload.uid is Present
            && observed.workload.uid->value == 0,
        RiskSignal::DetachedExecution => !(membership is Member),
        RiskSignal::DelegationScopeExpanded => delegation_exceeds(
            delegation,
            ExceededBound::Resource,
        ) || delegation_exceeds(delegation, ExceededBound::Action) || delegation_exceeds(
            delegation,
            ExceededBound::Depth,
        ) || delegation_exceeds(delegation, ExceededBound::Duration),
        RiskSignal::SecurityPostureChanged => recall_changed(
            recall,
            ChangedDimension::ResourceCapabilityState,
        ) || recall_changed(recall, ChangedDimension::PolicyRevision),
        RiskSignal::ContextBoundaryChanged => recall_changed(recall, ChangedDimension::CgroupPath)
            || delegation_exceeds(delegation, ExceededBound::CgroupPath) || delegation_exceeds(
            delegation,
            ExceededBound::SessionKey,
        ),
        RiskSignal::TrustTransition => delegation_exceeds(delegation, ExceededBound::TrustTransition),
        RiskSignal::EvidenceIndeterminate => membership is Indeterminate || (exists|i: int|
            0 <= i < recall.len() && #[trigger] recall[i] is Indeterminate) || delegation matches Some(
            DelegationView::Indeterminate(_),
        ),
    }
}

/// The signals at the positions where `flags` holds, in order.
pub open spec fn signals_where(flags: Seq<bool>) -> Seq<RiskSignal>
    decreases flags.len(),
{
    if flags.len() == 0 {
        Seq::empty()
    } else {
        let rest = signals_where(flags.drop_last());
        if flags.last() {
            rest.push(signal_at(flags.len() - 1))
        } else {
            rest
        }
    }
}

/// Every fired signal, in declaration order.
pub open spec fn fired_signals(
    membership: MembershipView,
    recall: Seq<RecallView>,
    delegation: Option<DelegationView>,
    observed: ExecutionContext,
    prefixes: Set<Seq<char>>,
) -> Seq<RiskSignal> {
    signals_where(
        Seq::new(
            11,
            |i: int| fires(signal_at(i), membership, recall, delegation, observed, prefixes),
        ),
    )
}

/// The verdict for `signals` under the disposition table `table`:
/// deny-overrides, then step-up, else none — independent of order.
pub open spec fn classify(signals: Seq<RiskSignal>, table: Seq<Option<SignalDisposition>>) -> StepUpView {
    if exists|i: int|
        0 <= i < signals.len() && effective(table, #[trigger] signals[i])
            == SignalDisposition::Deny {
        StepUpView::RiskDenied(signals)
    } else if exists|i: int|
        0 <= i < signals.len() && effective(table, #[trigger] signals[i])
            == SignalDisposition::StepUp {
        StepUpView::StepUpRequired(signals)
    } else {
        StepUpView::NoStepUp(signals)
    }
}

/// The abstract value of an optional delegation verdict.
pub open spec fn delegation_view(d: Option<&DelegationVerdict>) -> Option<DelegationView> {
    match d {
        Some(v) => Some(v@),
        None => None,
    }
}

/// Whether some recall verdict lists `d` as changed.
fn any_recall_changed(recall: &[RecallVerdict], d: ChangedDimension) -> (b: bool)
    ensures
        b == recall_changed(recall_views(recall@), d),
{
    let ghost views = recall_views(recall@);
    let mut i: usize = 0;
    while i < recall.len()
        invariant
            i <= recall@.len(),
            views == recall_views(recall@),
            forall|k: int|
                0 <= k < i ==> !(#[trigger] views[k] matches RecallView::NotMatched(changed)
                    && changed.contains(d)),
        decreases recall.len() - i,
    {
        assert(views[i as int] == recall@[i as int]@);
        match &recall[i] {
            RecallVerdict::NotMatched { changed } => {
                assert(views[i as int] == RecallView::NotMatched(changed@));
                let mut j: usize = 0;
                while j < changed.len()
                    invariant
                        j <= changed@.len(),
                        i < recall@.len(),
                        views == recall_views(recall@),
                        views[i as int] == RecallView::NotMatched(changed@),
                        forall|m: int| 0 <= m < j ==> changed@[m] != d,
                    decreases changed.len() - j,
                {
                    if changed[j] == d {
                        assert(changed@[j as int] == d);
                        assert(changed@.contains(d));
                        return true;
                    }
                    j = j + 1;
                }
                assert(!changed@.contains(d));
            },
            _ => {},
        }
        i = i + 1;
    }
    false
}

/// Whether some recall verdict is indeterminate.
fn any_recall_indeterminate(recall: &[RecallVerdict]) -> (b: bool)
    ensures
        b == exists|i: int|
            0 <= i < recall@.len() && #[trigger] recall_views(recall@)[i] is Indeterminate,
{
    let ghost views = recall_views(recall@);
    let mut i: usize = 0;
    while i < recall.len()
        invariant
            i <= recall@.len(),
            views == recall_views(recall@),
            forall|k: int| 0 <= k < i ==> !(#[trigger] views[k] is Indeterminate),
        decreases recall.len() - i,
    {
        assert(views[i as int] == recall@[i as int]@);
        match &recall[i] {
            RecallVerdict::Indeterminate { .. } => {
                return true;
            },
            _ => {},
        }
        i = i + 1;
    }
    false
}

/// Whether the delegation verdict is a refusal listing `b`.
fn delegation_lists(delegation: Option<&DelegationVerdict>, b: ExceededBound) -> (r: bool)
    ensures
        r == delegation_exceeds(delegation_view(delegation), b),
{
    match delegation {
        Some(DelegationVerdict::NotAdmitted { exceeded }) => {
            let mut i: usize = 0;
            while i < exceeded.len()
                invariant
                    i <= exceeded@.len(),
                    delegation_view(delegation) == Some(DelegationView::NotAdmitted(exceeded@)),
                    forall|m: int| 0 <= m < i ==> exceeded@[m] != b,
                decreases exceeded.len() - i,
            {
                if exceeded[i] == b {
                    assert(exceeded@[i as int] == b);
                    return true;
                }
                i = i + 1;
            }
            false
        },
        _ => false,
    }
}

/// Whether the observed executable path starts with an untrusted prefix.
fn path_untrusted(observed: &ExecutionContext, prefixes: &Vec<String>) -> (b: bool)
    ensures
        b == (observed.workload.executable_path is Present && exists|p: Seq<char>|
            texts_of(prefixes@).to_set().contains(p) && is_prefix(
                p,
                observed.workload.executable_path->value@,
            )),
{
    match &observed.workload.executable_path {
        Evidence::Present { value, .. } => {
            let ghost texts = texts_of(prefixes@);
            let mut i: usize = 0;
            while i < prefixes.len()
                invariant
                    i <= prefixes@.len(),
                    texts == texts_of(prefixes@),
                    observed.workload.executable_path is Present,
                    observed.workload.executable_path->value@ == value@,
                    forall|k: int| 0 <= k < i ==> !is_prefix(#[trigger] texts[k], value@),
                decreases prefixes.len() - i,
            {
                if starts_with(value.as_str(), prefixes[i].as_str()) {
                    assert(texts[i as int] == prefixes@[i as int]@);
                    assert(texts.to_set().contains(texts[i as int]));
                    assert(texts.to_set().contains(texts[i as int]) && is_prefix(
                        texts[i as int],
                        observed.workload.executable_path->value@,
                    ));
                    return true;
                }
                assert(texts[i as int] == prefixes@[i as int]@);
                i = i + 1;
            }
            proof {
                assert forall|p: Seq<char>| texts.to_set().contains(p) implies !is_prefix(
                    p,
                    value@,
                ) by {
                    let k = choose|k: int| 0 <= k < texts.len() && texts[k] == p;
                }
            }
            false
        },
        _ => false,
    }
}

/// The signals at the positions where `flags` holds.
fn collect_signals(flags: &Vec<bool>) -> (r: Vec<RiskSignal>)
    requires
        flags@.len() <= SIGNAL_COUNT,
    ensures
        r@ == signals_where(flags@),
{
    let mut r: Vec<RiskSignal> = Vec::new();
    let mut i: usize = 0;
    while i < flags.len()
        invariant
            i <= flags@.len(),
            flags@.len() <= SIGNAL_COUNT,
            r@ == signals_where(flags@.take(i as int)),
        decreases flags.len() - i,
    {
        proof {
            assert(flags@.take(i + 1).drop_last() =~= flags@.take(i as int));
        }
        if flags[i] {
            r.push(RiskSignal::at(i));
        }
        i = i + 1;
    }
    assert(flags@.take(i as int) =~= flags@);
    r
}

/// Whether some signal of `signals` has disposition `d` under `policy`.
fn any_disposed(signals: &Vec<RiskSignal>, policy: &StepUpPolicy, d: SignalDisposition) -> (b: bool)
    ensures
        b == exists|i: int|
            0 <= i < signals@.len() && effective(policy@.dispositions, #[trigger] signals@[i]) == d,
{
    let mut i: usize = 0;
    while i < signals.len()
        invariant
            i <= signals@.len(),
            forall|k: int|
                0 <= k < i ==> effective(policy@.dispositions, #[trigger] signals@[k]) != d,
        decreases signals.len() - i,
    {
        if policy.disposition(signals[i]) == d {
            return true;
        }
        i = i + 1;
    }
    false
}

/// Whether `signal` fires for these verdicts and this observation.
fn signal_fires(
    signal: RiskSignal,
    verdicts: &GateVerdicts,
    observed: &ExecutionContext,
    policy: &StepUpPolicy,
) -> (b: bool)
    ensures
        b == fires(
            signal,
            verdicts.membership@,
            recall_views(verdicts.recall@),
            delegation_view(verdicts.delegation),
            *observed,
            policy@.untrusted_path_prefixes,
        ),
{
    let recall = verdicts.recall;
    let delegation = verdicts.delegation;
    match signal {
        RiskSignal::UnknownLauncher => recall.len() == 0 || any_recall_changed(
            recall,
            ChangedDimension::LauncherPath,
        ),
        RiskSignal::UntrustedExecutionPath => path_untrusted(
            observed,
            &policy.untrusted_path_prefixes,
        ),
        RiskSignal::LauncherIdentityChanged => any_recall_changed(
            recall,
            ChangedDimension::LauncherDigest,
        ),
        RiskSignal::PrivilegeTransition => any_recall_changed(recall, ChangedDimension::OwnerUid)
            || delegation_lists(delegation, ExceededBound::OwnerUid),
        RiskSignal::PrivilegeEscalationToRoot => {
            let transition = any_recall_changed(recall, ChangedDimension::OwnerUid)
                || delegation_lists(delegation, ExceededBound::OwnerUid);
            let uid_root = match &observed.workload.uid {
                Evidence::Present { value, .. } => *value == 0,
                _ => false,
            };
            transition && uid_root
        },
        RiskSignal::DetachedExecution => match verdicts.membership {
            MembershipVerdict::Member => false,
            _ => true,
        },
        RiskSignal::DelegationScopeExpanded => delegation_lists(delegation, ExceededBound::Resource)
            || delegation_lists(delegation, ExceededBound::Action) || delegation_lists(
            delegation,
            ExceededBound::Depth,
        ) || delegation_lists(delegation, ExceededBound::Duration),
        RiskSignal::SecurityPostureChanged => any_recall_changed(
            recall,
            ChangedDimension::ResourceCapabilityState,
        ) || any_recall_changed(recall, ChangedDimension::PolicyRevision),
        RiskSignal::ContextBoundaryChanged => any_recall_changed(
            recall,
            ChangedDimension::CgroupPath,
        ) || delegation_lists(delegation, ExceededBound::CgroupPath) || delegation_lists(
            delegation,
            ExceededBound::SessionKey,
        ),
        RiskSignal::TrustTransition => delegation_lists(delegation, ExceededBound::TrustTransition),
        RiskSignal::EvidenceIndeterminate => {
            let membership_indeterminate = match verdicts.membership {
                MembershipVerdict::Indeterminate { .. } => true,
                _ => false,
            };
            let delegation_indeterminate = match delegation {
                Some(DelegationVerdict::Indeterminate { .. }) => true,
                _ => false,
            };
            proof {
                assert(recall@.len() == recall_views(recall@).len());
            }
            membership_indeterminate || any_recall_indeterminate(recall)
                || delegation_indeterminate
        },
    }
}

/// Classify an already-produced refusal under `policy`: collect every
/// fired signal (in declaration order), then deny-overrides — any
/// `Deny` disposition gives `RiskDenied`, else any `StepUp` gives
/// `StepUpRequired`, else `NoStepUp`. `observed` is only read for the
/// untrusted-path prefix test and the observed-uid-is-root test.
pub fn assess(verdicts: &GateVerdicts, observed: &ExecutionContext, policy: &StepUpPolicy) -> (v:
    StepUpVerdict)
    ensures
        v@ == classify(
            fired_signals(
                verdicts.membership@,
                recall_views(verdicts.recall@),
                delegation_view(verdicts.delegation),
                *observed,
                policy@.untrusted_path_prefixes,
            ),
            policy@.dispositions,
        ),
{
    let ghost m = verdicts.membership@;
    let ghost rv = recall_views(verdicts.recall@);
    let ghost dv = delegation_view(verdicts.delegation);
    let ghost pre = policy@.untrusted_path_prefixes;
    let mut flags: Vec<bool> = Vec::new();
    let mut i: usize = 0;
    while i < SIGNAL_COUNT
        invariant
            i <= SIGNAL_COUNT,
            m == verdicts.membership@,
            rv == recall_views(verdicts.recall@),
            dv == delegation_view(verdicts.delegation),
            pre == policy@.untrusted_path_prefixes,
            flags@ == Seq::new(i as nat, |k: int| fires(signal_at(k), m, rv, dv, *observed, pre)),
        decreases SIGNAL_COUNT - i,
    {
        let fired = signal_fires(RiskSignal::at(i), verdicts, observed, policy);
        flags.push(fired);
        assert(flags@ =~= Seq::new(
            (i + 1) as nat,
            |k: int| fires(signal_at(k), m, rv, dv, *observed, pre),
        ));
        i = i + 1;
    }
    let signals = collect_signals(&flags);
    if any_disposed(&signals, policy, SignalDisposition::Deny) {
        return StepUpVerdict::RiskDenied { signals };
    }
    if any_disposed(&signals, policy, SignalDisposition::StepUp) {
        return StepUpVerdict::StepUpRequired { signals };
    }
    StepUpVerdict::NoStepUp { signals }
}

/// A deployment that configures nothing never gets a stricter outcome:
/// with no disposition set, every classification is `NoStepUp`.
pub proof fn law_unconfigured_policy_never_steps_up(signals: Seq<RiskSignal>)
    ensures
        classify(signals, disposition_table(Seq::empty())) == StepUpView::NoStepUp(signals),
{
    let table = disposition_table(Seq::<(RiskSignal, SignalDisposition)>::empty());
    assert forall|i: int| 0 <= i < signals.len() implies effective(table, #[trigger] signals[i])
        == SignalDisposition::Informational by {
        assert(0 <= signal_rank(signals[i]) < 11);
    }
}

/// Deny overrides, whatever the order: a classification is `RiskDenied`
/// exactly when some fired signal is configured `Deny`, and
/// `StepUpRequired` exactly when none is but some is configured `StepUp`.
pub proof fn law_deny_overrides(signals: Seq<RiskSignal>, table: Seq<Option<SignalDisposition>>)
    ensures
        classify(signals, table) is RiskDenied <==> exists|i: int|
            0 <= i < signals.len() && effective(table, #[trigger] signals[i])
                == SignalDisposition::Deny,
        classify(signals, table) is StepUpRequired <==> (!(exists|i: int|
            0 <= i < signals.len() && effective(table, #[trigger] signals[i])
                == SignalDisposition::Deny) && exists|i: int|
            0 <= i < signals.len() && effective(table, #[trigger] signals[i])
                == SignalDisposition::StepUp),
{
}

/// The untrusted-path signal can never hard-deny on its own: under any
/// table a policy accepts (where that signal is not `Deny`), a refusal
/// whose only fired signal is the untrusted path is never `RiskDenied`.
pub proof fn law_untrusted_path_alone_never_denies(table: Seq<Option<SignalDisposition>>)
    requires
        table.len() == 11,
        table[1] != Some(SignalDisposition::Deny),
    ensures
        !(classify(seq![RiskSignal::UntrustedExecutionPath], table) is RiskDenied),
{
}

/// Escalation to root never fires without a privilege transition.
pub proof fn law_escalation_requires_transition(
    membership: MembershipView,
    recall: Seq<RecallView>,
    delegation: Option<DelegationView>,
    observed: ExecutionContext,
    prefixes: Set<Seq<char>>,
)
    ensures
        fires(RiskSignal::PrivilegeEscalationToRoot, membership, recall, delegation, observed, prefixes)
            ==> fires(
            RiskSignal::PrivilegeTransition,
            membership,
            recall,
            delegation,
            observed,
            prefixes,
        ),
{
}

} // verus!
