use eltanin::identity::{
    Evidence, EvidenceSource, IdentityComparison, ProcessStartToken, WorkloadIdentity,
};

fn identity_with(
    pid: u32,
    start: Evidence<ProcessStartToken>,
    uid_source: EvidenceSource,
    executable_path: &str,
) -> WorkloadIdentity {
    WorkloadIdentity {
        pid,
        process_start: start,
        uid: Evidence::Present {
            value: 1000,
            source: uid_source,
        },
        gid: Evidence::Present {
            value: 1000,
            source: uid_source,
        },
        executable_path: Evidence::Present {
            value: executable_path.to_string(),
            source: uid_source,
        },
        executable_hash: Evidence::Missing {
            reason: "hashing not implemented".into(),
        },
        ancestry: Vec::new(),
    }
}

fn present(value: u64) -> Evidence<ProcessStartToken> {
    Evidence::Present {
        value: ProcessStartToken(value),
        source: EvidenceSource::KernelObserved,
    }
}

#[test]
fn same_pid_different_binary_disguised_as_restart_is_not_reported_same() {
    let original = identity_with(
        4242,
        present(1_000),
        EvidenceSource::KernelObserved,
        "/usr/bin/trusted-tool",
    );
    let attacker = identity_with(
        4242,
        present(1_001),
        EvidenceSource::KernelObserved,
        "/usr/bin/trusted-tool",
    );
    assert_eq!(
        original.compare_process(&attacker),
        IdentityComparison::Different,
        "same pid + same claimed path but a different start token must never compare as Same"
    );
}

#[test]
fn pid_reused_by_unrelated_process_is_reported_different_not_same() {
    let original_holder = identity_with(
        777,
        present(500),
        EvidenceSource::KernelObserved,
        "/usr/bin/original",
    );
    let new_occupant = identity_with(
        777,
        present(999),
        EvidenceSource::KernelObserved,
        "/usr/bin/unrelated",
    );
    assert_eq!(
        original_holder.compare_process(&new_occupant),
        IdentityComparison::Different
    );
}

#[test]
fn process_exit_race_reports_indeterminate_not_a_confirmed_answer() {
    let before_exit = identity_with(
        555,
        present(300),
        EvidenceSource::KernelObserved,
        "/usr/bin/short-lived",
    );
    let mut after_exit = identity_with(
        555,
        present(300),
        EvidenceSource::KernelObserved,
        "/usr/bin/short-lived",
    );
    after_exit.process_start = Evidence::Missing {
        reason: "process exited mid-read".into(),
    };
    let result = before_exit.compare_process(&after_exit);
    assert_eq!(result, IdentityComparison::Indeterminate);
    assert_ne!(result, IdentityComparison::Same);
    assert_ne!(result, IdentityComparison::Different);
}

#[test]
fn self_asserted_claim_never_compares_equal_to_the_same_kernel_observed_value() {
    let claimed = Evidence::Present {
        value: "/usr/bin/trusted-tool".to_string(),
        source: EvidenceSource::SelfAsserted,
    };
    let observed = Evidence::Present {
        value: "/usr/bin/trusted-tool".to_string(),
        source: EvidenceSource::KernelObserved,
    };
    assert_ne!(
        claimed, observed,
        "identical claimed value must still be distinguishable from a kernel-observed one by source"
    );
}

#[test]
fn same_claimed_path_with_different_process_start_is_not_the_same_identity() {
    let legitimate = identity_with(
        88,
        present(10),
        EvidenceSource::KernelObserved,
        "/usr/bin/tool",
    );
    let impostor = identity_with(
        89,
        present(20),
        EvidenceSource::KernelObserved,
        "/usr/bin/tool",
    );
    assert_ne!(legitimate, impostor);
    assert_eq!(
        legitimate.compare_process(&impostor),
        IdentityComparison::Different
    );
}

#[test]
fn missing_evidence_never_reports_present_or_yields_a_value() {
    let missing: Evidence<u32> = Evidence::Missing {
        reason: "permission denied".into(),
    };
    assert!(!missing.is_present());
    assert_eq!(missing.value(), None);

    let unsupported: Evidence<u32> = Evidence::Unsupported;
    assert!(!unsupported.is_present());
    assert_eq!(unsupported.value(), None);
}
