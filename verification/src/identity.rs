//! Workload identity and execution context.
//!
//! Every field states its own trust source explicitly; no field's mere
//! presence implies authorization.

use vstd::prelude::*;

verus! {

/// How a piece of workload evidence was obtained. Any of these is a
/// signal for policy to weigh, never unconditional proof.
#[derive(Debug, Clone, Copy, PartialEq, Eq, Structural, Hash)]
pub enum EvidenceSource {
    /// Read from a kernel mechanism the observed process cannot spoof.
    KernelObserved,
    /// A best-effort read the caller cannot forge but which may race a
    /// fast-changing process.
    BestEffort,
    /// Provided by the process itself with no independent check.
    SelfAsserted,
}

/// One piece of evidence: present with provenance, explicitly missing,
/// or explicitly unsupported. There is no default state.
#[derive(Debug, Clone, PartialEq, Eq)]
pub enum Evidence<T> {
    Present { value: T, source: EvidenceSource },
    /// The signal could not be collected this time.
    Missing { reason: String },
    /// This platform/build does not collect this signal at all.
    Unsupported,
}

impl<T> Evidence<T> {
    pub fn is_present(&self) -> (b: bool)
        ensures
            b == (self is Present),
    {
        match self {
            Evidence::Present { .. } => true,
            _ => false,
        }
    }

    pub fn value(&self) -> (v: Option<&T>)
        ensures
            self is Present ==> v == Some(&self->value),
            !(self is Present) ==> v is None,
    {
        match self {
            Evidence::Present { value, .. } => Some(value),
            _ => None,
        }
    }
}

impl Evidence<u32> {
    /// A copy of this evidence.
    pub fn duplicate(&self) -> (r: Self)
        ensures
            r == *self,
    {
        match self {
            Evidence::Present { value, source } => Evidence::Present { value: *value, source: *source },
            Evidence::Missing { reason } => Evidence::Missing { reason: reason.clone() },
            Evidence::Unsupported => Evidence::Unsupported,
        }
    }
}

impl Evidence<String> {
    /// A copy of this evidence.
    pub fn duplicate(&self) -> (r: Self)
        ensures
            r == *self,
    {
        match self {
            Evidence::Present { value, source } => Evidence::Present {
                value: value.clone(),
                source: *source,
            },
            Evidence::Missing { reason } => Evidence::Missing { reason: reason.clone() },
            Evidence::Unsupported => Evidence::Unsupported,
        }
    }
}

/// `e` is present and not self-asserted: a value that can be relied on.
pub open spec fn usable<T>(e: Evidence<T>) -> bool {
    e matches Evidence::Present { source, .. } && source != EvidenceSource::SelfAsserted
}

/// Opaque process-start token used together with a pid to detect pid
/// reuse. Compared for equality only.
#[derive(Debug, Clone, Copy, PartialEq, Eq, Structural, Hash)]
pub struct ProcessStartToken(pub u64);

/// One ancestor in a process's parent chain — a contextual signal only.
#[derive(Debug, Clone, PartialEq, Eq)]
pub struct ProcessAncestor {
    pub pid: u32,
    pub start: Evidence<ProcessStartToken>,
    pub executable_path: Evidence<String>,
}

/// Three-way result of comparing two observations: "could not tell" is
/// never confusable with either answer.
#[derive(Debug, Clone, Copy, PartialEq, Eq, Structural)]
pub enum IdentityComparison {
    Same,
    Different,
    Indeterminate,
}

/// Stable identity for one observed workload process.
#[derive(Debug, Clone, PartialEq, Eq)]
pub struct WorkloadIdentity {
    pub pid: u32,
    pub process_start: Evidence<ProcessStartToken>,
    pub uid: Evidence<u32>,
    pub gid: Evidence<u32>,
    pub executable_path: Evidence<String>,
    pub executable_hash: Evidence<String>,
    pub ancestry: Vec<ProcessAncestor>,
}

/// [`WorkloadIdentity::compare_process`]: `Same` only when both start
/// tokens are present and equal and the pids match; `Indeterminate` when
/// either token is missing or unsupported.
pub open spec fn spec_compare_process(a: WorkloadIdentity, b: WorkloadIdentity) -> IdentityComparison {
    match (a.process_start, b.process_start) {
        (Evidence::Present { value: x, .. }, Evidence::Present { value: y, .. }) => {
            if a.pid == b.pid && x == y {
                IdentityComparison::Same
            } else {
                IdentityComparison::Different
            }
        },
        _ => IdentityComparison::Indeterminate,
    }
}

/// [`WorkloadIdentity::compare_ancestor`]: like `compare_process`, but a
/// self-asserted start token on either side is never usable.
pub open spec fn spec_compare_ancestor(a: WorkloadIdentity, b: ProcessAncestor) -> IdentityComparison {
    if usable(a.process_start) && usable(b.start) {
        if a.pid == b.pid && a.process_start->value == b.start->value {
            IdentityComparison::Same
        } else {
            IdentityComparison::Different
        }
    } else {
        IdentityComparison::Indeterminate
    }
}

/// The executable image two observations name: compared by content hash
/// when both sides have a usable hash, else by executable path when both
/// sides have a usable path, else indeterminate.
pub open spec fn spec_compare_executable(a: WorkloadIdentity, b: WorkloadIdentity) -> IdentityComparison {
    if usable(a.executable_hash) && usable(b.executable_hash) {
        if a.executable_hash->value@ == b.executable_hash->value@ {
            IdentityComparison::Same
        } else {
            IdentityComparison::Different
        }
    } else if usable(a.executable_path) && usable(b.executable_path) {
        if a.executable_path->value@ == b.executable_path->value@ {
            IdentityComparison::Same
        } else {
            IdentityComparison::Different
        }
    } else {
        IdentityComparison::Indeterminate
    }
}

/// The value of usable evidence: present and not self-asserted.
pub fn usable_value<T>(e: &Evidence<T>) -> (r: Option<&T>)
    ensures
        usable(*e) ==> r == Some(&e->value),
        !usable(*e) ==> r is None,
{
    match e {
        Evidence::Present { value, source } => match source {
            EvidenceSource::SelfAsserted => None,
            _ => Some(value),
        },
        _ => None,
    }
}

/// Whether string evidence is usable; its value when it is.
fn usable_string(e: &Evidence<String>) -> (r: Option<&String>)
    ensures
        usable(*e) ==> r == Some(&e->value),
        !usable(*e) ==> r is None,
{
    match e {
        Evidence::Present { value, source } => match source {
            EvidenceSource::SelfAsserted => None,
            _ => Some(value),
        },
        _ => None,
    }
}

impl WorkloadIdentity {
    /// Whether `self` and `other` observe the same running process:
    /// `Same` only when the pids match and both start tokens are present
    /// and equal; `Indeterminate` — never `Different` — when either token
    /// is missing or unsupported.
    pub fn compare_process(&self, other: &WorkloadIdentity) -> (c: IdentityComparison)
        ensures
            c == spec_compare_process(*self, *other),
    {
        match (&self.process_start, &other.process_start) {
            (Evidence::Present { value: a, .. }, Evidence::Present { value: b, .. }) => {
                if self.pid == other.pid && a.0 == b.0 {
                    IdentityComparison::Same
                } else {
                    IdentityComparison::Different
                }
            },
            _ => IdentityComparison::Indeterminate,
        }
    }

    /// Whether `self` and `other` are confirmed to observe the same running
    /// process; `false` both for a confirmed different process and for
    /// insufficient evidence — never a fallback to comparing pids alone.
    pub fn same_process(&self, other: &WorkloadIdentity) -> (b: bool)
        ensures
            b <==> spec_compare_process(*self, *other) == IdentityComparison::Same,
    {
        match self.compare_process(other) {
            IdentityComparison::Same => true,
            _ => false,
        }
    }

    /// Whether ancestry entry `ancestor` is the process `self` observes.
    /// A missing, unsupported or self-asserted start token on either side
    /// is `Indeterminate`, never `Same`.
    pub fn compare_ancestor(&self, ancestor: &ProcessAncestor) -> (c: IdentityComparison)
        ensures
            c == spec_compare_ancestor(*self, *ancestor),
    {
        match (&self.process_start, &ancestor.start) {
            (
                Evidence::Present { value: a, source: sa },
                Evidence::Present { value: b, source: sb },
            ) => {
                if *sa == EvidenceSource::SelfAsserted || *sb == EvidenceSource::SelfAsserted {
                    IdentityComparison::Indeterminate
                } else if self.pid == ancestor.pid && a.0 == b.0 {
                    IdentityComparison::Same
                } else {
                    IdentityComparison::Different
                }
            },
            _ => IdentityComparison::Indeterminate,
        }
    }

    /// Whether `self` and `other` run the same executable image — what
    /// catches an in-place `execve()` into another binary, which leaves
    /// pid and start token unchanged. Compares content hashes when both
    /// are usable, else executable paths when both are usable, else
    /// reports `Indeterminate`.
    pub fn compare_executable(&self, other: &WorkloadIdentity) -> (c: IdentityComparison)
        ensures
            c == spec_compare_executable(*self, *other),
    {
        match (usable_string(&self.executable_hash), usable_string(&other.executable_hash)) {
            (Some(a), Some(b)) => {
                return if *a == *b {
                    IdentityComparison::Same
                } else {
                    IdentityComparison::Different
                };
            },
            _ => {},
        }
        match (usable_string(&self.executable_path), usable_string(&other.executable_path)) {
            (Some(a), Some(b)) => {
                if *a == *b {
                    IdentityComparison::Same
                } else {
                    IdentityComparison::Different
                }
            },
            _ => IdentityComparison::Indeterminate,
        }
    }
}

/// The execution environment around a [`WorkloadIdentity`] at the moment
/// it requested protected compute.
#[derive(Debug, Clone, PartialEq, Eq)]
pub struct ExecutionContext {
    pub workload: WorkloadIdentity,
    pub cgroup_path: Evidence<String>,
    pub namespace_hint: Evidence<String>,
    pub container_hint: Evidence<String>,
    pub session_origin: Evidence<String>,
}


/// Law (content hash decides): when both observations carry usable
/// executable hashes (present, not self-asserted), those hashes alone
/// decide whether the executable image is the same — a same-path binary
/// with other content is `Different`, whatever the paths say.
pub proof fn law_executable_hash_decides(a: WorkloadIdentity, b: WorkloadIdentity)
    requires
        a.executable_hash is Present,
        a.executable_hash->source != EvidenceSource::SelfAsserted,
        b.executable_hash is Present,
        b.executable_hash->source != EvidenceSource::SelfAsserted,
    ensures
        a.executable_hash->value@ != b.executable_hash->value@ ==> spec_compare_executable(a, b)
            == IdentityComparison::Different,
        a.executable_hash->value@ == b.executable_hash->value@ ==> spec_compare_executable(a, b)
            == IdentityComparison::Same,
{
}

} // verus!
