use eltanin::identity::{Evidence, EvidenceSource, ExecutionContext, WorkloadIdentity};
use eltanin::peer::{
    classify_consistency, mapped_peer_pid, xucred_identity, PeerConsistency, PeerContext,
    PeerCredential, PeerCredentialError,
};

fn present(value: u32) -> Evidence<u32> {
    Evidence::Present {
        value,
        source: EvidenceSource::KernelObserved,
    }
}

fn missing() -> Evidence<u32> {
    Evidence::Missing {
        reason: "test".into(),
    }
}

#[test]
fn matching_real_uid_is_consistent() {
    assert_eq!(
        classify_consistency(1000, &present(1000), &present(1000)),
        PeerConsistency::Consistent
    );
}

#[test]
fn matching_effective_uid_alone_is_consistent() {
    assert_eq!(
        classify_consistency(0, &present(1000), &present(0)),
        PeerConsistency::Consistent
    );
}

#[test]
fn matching_neither_is_credential_divergence() {
    assert_eq!(
        classify_consistency(2000, &present(1000), &present(1000)),
        PeerConsistency::CredentialDivergence {
            peer_effective_uid: 2000,
            observed_real_uid: present(1000),
            observed_effective_uid: present(1000),
        }
    );
}

#[test]
fn both_sides_unreadable_is_indeterminate_not_divergence() {
    assert!(matches!(
        classify_consistency(1000, &missing(), &missing()),
        PeerConsistency::Indeterminate { .. }
    ));
}

#[test]
fn one_side_unreadable_and_the_other_mismatching_is_divergence_not_indeterminate() {
    assert!(matches!(
        classify_consistency(2000, &missing(), &present(1000)),
        PeerConsistency::CredentialDivergence { .. }
    ));
}

#[test]
fn a_self_asserted_match_is_never_treated_as_consistent() {
    let self_asserted = Evidence::Present {
        value: 1000,
        source: EvidenceSource::SelfAsserted,
    };
    assert!(matches!(
        classify_consistency(1000, &self_asserted, &missing()),
        PeerConsistency::CredentialDivergence { .. }
    ));
}

// ---- further cases ----

fn observed() -> ExecutionContext {
    ExecutionContext {
        workload: WorkloadIdentity {
            pid: 7,
            process_start: Evidence::Unsupported,
            uid: present(1000),
            gid: present(1000),
            executable_path: Evidence::Unsupported,
            executable_hash: Evidence::Unsupported,
            ancestry: vec![],
        },
        cgroup_path: Evidence::Unsupported,
        namespace_hint: Evidence::Unsupported,
        container_hint: Evidence::Unsupported,
        session_origin: Evidence::Unsupported,
    }
}

#[test]
fn consistent_peer_is_authorizable() {
    let cred = PeerCredential::from_kernel(7, 1000, 1000);
    let ctx = PeerContext::from_kernel_observation(cred, observed(), &present(1000), &present(1000));
    assert_eq!(ctx.consistency(), &PeerConsistency::Consistent);
    assert_eq!(ctx.authorizable(), Some(&observed()));
    assert_eq!(ctx.credential().effective_uid(), 1000);
    assert_eq!(ctx.credential().pid(), 7);
}

#[test]
fn diverging_peer_is_not_authorizable_but_keeps_its_observation() {
    let cred = PeerCredential::from_kernel(7, 2000, 1000);
    let ctx = PeerContext::from_kernel_observation(cred, observed(), &present(1000), &present(1000));
    assert!(ctx.authorizable().is_none());
    assert_eq!(ctx.observed(), &observed());
}

#[test]
fn unmapped_peer_is_not_authorizable() {
    let cred = PeerCredential::new(0, 1000, 1000);
    let ctx = PeerContext::peer_unmapped(cred, observed());
    assert_eq!(ctx.consistency(), &PeerConsistency::PeerUnmapped);
    assert!(ctx.authorizable().is_none());
}

#[test]
fn peer_credential_error_messages() {
    let e = PeerCredentialError::Io {
        reason: "boom".to_string(),
    };
    assert_eq!(e.message(), "failed to read peer socket credential: boom");
    assert_eq!(
        PeerCredentialError::UnsupportedPlatform.message(),
        "peer credential derivation is not supported on this platform"
    );
}

#[test]
fn xucred_reply_checks_version_and_groups() {
    assert_eq!(xucred_identity(0, 0, 501, &[20, 12]), Ok((501, 20)));
    assert_eq!(
        xucred_identity(1, 0, 501, &[20]),
        Err(PeerCredentialError::Io {
            reason: "LOCAL_PEERCRED returned unexpected xucred version 1 (expected 0)".to_string()
        })
    );
    assert_eq!(
        xucred_identity(0, 0, 501, &[]),
        Err(PeerCredentialError::Io {
            reason: "LOCAL_PEERCRED returned an empty group list; no effective gid available"
                .to_string()
        })
    );
}

#[test]
fn non_positive_peer_pids_are_unmapped() {
    assert_eq!(mapped_peer_pid(0), None);
    assert_eq!(mapped_peer_pid(-3), None);
    assert_eq!(mapped_peer_pid(77), Some(77));
}
