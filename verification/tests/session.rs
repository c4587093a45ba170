use eltanin::identity::{Evidence, EvidenceSource, ProcessStartToken, WorkloadIdentity};
use eltanin::lease::{IssuerInstanceId, MonotonicTime};
use eltanin::resource::{ResourceIdentity, ResourceKind, ResourceVendor};
use eltanin::session::{
    membership, HostId, IntentProof, LeaderCorroboration, LocalSessionAnchor, MembershipVerdict,
    NotMemberReason, SessionAssurance, SessionAuthority, SessionError, SessionKey, SessionNonce,
    SessionScope, SessionTerminationOutcome, SessionValidity, TrustedSession,
};
use eltanin::time::Duration;

const OWNER_UID: u32 = 1000;

fn present_start(token: u64) -> Evidence<ProcessStartToken> {
    Evidence::Present {
        value: ProcessStartToken(token),
        source: EvidenceSource::KernelObserved,
    }
}

fn leader(pid: u32, start: u64) -> WorkloadIdentity {
    WorkloadIdentity {
        pid,
        process_start: present_start(start),
        uid: Evidence::Present {
            value: OWNER_UID,
            source: EvidenceSource::KernelObserved,
        },
        gid: Evidence::Unsupported,
        executable_path: Evidence::Unsupported,
        executable_hash: Evidence::Unsupported,
        ancestry: Vec::new(),
    }
}

fn leader_unobservable(pid: u32) -> WorkloadIdentity {
    WorkloadIdentity {
        pid,
        process_start: Evidence::Missing {
            reason: "process exited".to_string(),
        },
        uid: Evidence::Unsupported,
        gid: Evidence::Unsupported,
        executable_path: Evidence::Unsupported,
        executable_hash: Evidence::Unsupported,
        ancestry: Vec::new(),
    }
}

fn matching_uid() -> Evidence<u32> {
    Evidence::Present {
        value: OWNER_UID,
        source: EvidenceSource::KernelObserved,
    }
}

fn host() -> HostId {
    HostId("test-host".to_string())
}

fn matching_host() -> Evidence<HostId> {
    Evidence::Present {
        value: host(),
        source: EvidenceSource::KernelObserved,
    }
}

fn nonce() -> SessionNonce {
    SessionNonce::from_bytes([7u8; 32])
}

fn scope() -> SessionScope {
    SessionScope::new(vec![ResourceIdentity {
        vendor: ResourceVendor::new("fake"),
        kind: ResourceKind::gpu(),
        local_id: "0".to_string(),
    }])
    .unwrap()
}

fn authority() -> SessionAuthority {
    SessionAuthority::new(IssuerInstanceId::new("agent-1"), Duration::from_secs(3600))
}

fn establish_with_leader(
    authority: &mut SessionAuthority,
    leader: LeaderCorroboration,
) -> TrustedSession {
    authority
        .establish(
            OWNER_UID,
            LocalSessionAnchor {
                key: SessionKey(42),
                leader,
            },
            scope(),
            IntentProof::LocalPeerPresence,
            SessionAssurance::LocalKernelSession,
            host(),
            nonce(),
            MonotonicTime::from_nanos(0),
            Duration::from_secs(60),
        )
        .unwrap()
}

fn establish_default(authority: &mut SessionAuthority) -> TrustedSession {
    establish_with_leader(authority, LeaderCorroboration::Recorded(leader(100, 999)))
}

#[test]
fn empty_scope_is_rejected() {
    assert!(SessionScope::new(Vec::<ResourceIdentity>::new()).is_err());
}

#[test]
fn membership_requires_matching_key_and_same_leader() {
    let mut authority = authority();
    let session = establish_default(&mut authority);
    let matching_key = Evidence::Present {
        value: SessionKey(42),
        source: EvidenceSource::KernelObserved,
    };
    assert_eq!(
        membership(
            &session,
            &matching_uid(),
            &matching_key,
            &matching_host(),
            &leader(100, 999),
            MonotonicTime::from_nanos(1),
        ),
        MembershipVerdict::Member
    );
}

#[test]
fn membership_rejects_wrong_key() {
    let mut authority = authority();
    let session = establish_default(&mut authority);
    let wrong_key = Evidence::Present {
        value: SessionKey(7),
        source: EvidenceSource::KernelObserved,
    };
    assert_eq!(
        membership(
            &session,
            &matching_uid(),
            &wrong_key,
            &matching_host(),
            &leader(100, 999),
            MonotonicTime::from_nanos(1),
        ),
        MembershipVerdict::NotMember {
            reason: NotMemberReason::KeyMismatch
        }
    );
}

#[test]
fn membership_rejects_dead_leader_reuse_even_with_matching_key() {
    let mut authority = authority();
    let session = establish_default(&mut authority);
    let matching_key = Evidence::Present {
        value: SessionKey(42),
        source: EvidenceSource::KernelObserved,
    };
    assert_eq!(
        membership(
            &session,
            &matching_uid(),
            &matching_key,
            &matching_host(),
            &leader(100, 111),
            MonotonicTime::from_nanos(1),
        ),
        MembershipVerdict::NotMember {
            reason: NotMemberReason::AnchorRecycled
        }
    );
}

#[test]
fn membership_rejects_self_asserted_key_evidence() {
    let mut authority = authority();
    let session = establish_default(&mut authority);
    let self_asserted = Evidence::Present {
        value: SessionKey(42),
        source: EvidenceSource::SelfAsserted,
    };
    assert_eq!(
        membership(
            &session,
            &matching_uid(),
            &self_asserted,
            &matching_host(),
            &leader(100, 999),
            MonotonicTime::from_nanos(1),
        ),
        MembershipVerdict::Indeterminate {
            reason: "peer session-key evidence was self-asserted".to_string()
        }
    );
}

#[test]
fn membership_missing_key_evidence_is_indeterminate_not_not_member() {
    let mut authority = authority();
    let session = establish_default(&mut authority);
    let missing = Evidence::Missing {
        reason: "no session".to_string(),
    };
    assert!(matches!(
        membership(
            &session,
            &matching_uid(),
            &missing,
            &matching_host(),
            &leader(100, 999),
            MonotonicTime::from_nanos(1),
        ),
        MembershipVerdict::Indeterminate { .. }
    ));
}

#[test]
fn membership_requires_matching_owner_uid() {
    let mut authority = authority();
    let session = establish_default(&mut authority);
    let matching_key = Evidence::Present {
        value: SessionKey(42),
        source: EvidenceSource::KernelObserved,
    };
    let wrong_uid = Evidence::Present {
        value: OWNER_UID + 1,
        source: EvidenceSource::KernelObserved,
    };
    assert_eq!(
        membership(
            &session,
            &wrong_uid,
            &matching_key,
            &matching_host(),
            &leader(100, 999),
            MonotonicTime::from_nanos(1),
        ),
        MembershipVerdict::NotMember {
            reason: NotMemberReason::OwnerUidMismatch
        }
    );
}

#[test]
fn membership_missing_uid_evidence_is_indeterminate() {
    let mut authority = authority();
    let session = establish_default(&mut authority);
    let matching_key = Evidence::Present {
        value: SessionKey(42),
        source: EvidenceSource::KernelObserved,
    };
    assert!(matches!(
        membership(
            &session,
            &Evidence::Unsupported,
            &matching_key,
            &matching_host(),
            &leader(100, 999),
            MonotonicTime::from_nanos(1),
        ),
        MembershipVerdict::Indeterminate { .. }
    ));
}

#[test]
fn membership_requires_matching_host() {
    let mut authority = authority();
    let session = establish_default(&mut authority);
    let matching_key = Evidence::Present {
        value: SessionKey(42),
        source: EvidenceSource::KernelObserved,
    };
    let wrong_host = Evidence::Present {
        value: HostId("other-host".to_string()),
        source: EvidenceSource::KernelObserved,
    };
    assert_eq!(
        membership(
            &session,
            &matching_uid(),
            &matching_key,
            &wrong_host,
            &leader(100, 999),
            MonotonicTime::from_nanos(1),
        ),
        MembershipVerdict::NotMember {
            reason: NotMemberReason::HostMismatch
        }
    );
}

#[test]
fn membership_missing_host_evidence_is_indeterminate() {
    let mut authority = authority();
    let session = establish_default(&mut authority);
    let matching_key = Evidence::Present {
        value: SessionKey(42),
        source: EvidenceSource::KernelObserved,
    };
    assert!(matches!(
        membership(
            &session,
            &matching_uid(),
            &matching_key,
            &Evidence::Unsupported,
            &leader(100, 999),
            MonotonicTime::from_nanos(1),
        ),
        MembershipVerdict::Indeterminate { .. }
    ));
}

#[test]
fn absent_leader_observation_does_not_deny() {
    let mut authority = authority();
    let session = establish_default(&mut authority);
    let matching_key = Evidence::Present {
        value: SessionKey(42),
        source: EvidenceSource::KernelObserved,
    };
    assert_eq!(
        membership(
            &session,
            &matching_uid(),
            &matching_key,
            &matching_host(),
            &leader_unobservable(100),
            MonotonicTime::from_nanos(1),
        ),
        MembershipVerdict::Member
    );
}

#[test]
fn unobserved_leader_at_establishment_does_not_deny() {
    let mut authority = authority();
    let session = establish_with_leader(&mut authority, LeaderCorroboration::Unobserved);
    let matching_key = Evidence::Present {
        value: SessionKey(42),
        source: EvidenceSource::KernelObserved,
    };
    assert_eq!(
        membership(
            &session,
            &matching_uid(),
            &matching_key,
            &matching_host(),
            &leader(999, 1),
            MonotonicTime::from_nanos(1),
        ),
        MembershipVerdict::Member
    );
}

#[test]
fn membership_rejects_an_expired_session_on_its_own() {
    let mut authority = authority();
    let session = establish_default(&mut authority);
    let matching_key = Evidence::Present {
        value: SessionKey(42),
        source: EvidenceSource::KernelObserved,
    };
    let at_expiry =
        MonotonicTime::from_nanos(u64::try_from(Duration::from_secs(60).as_nanos()).unwrap());
    assert_eq!(
        membership(
            &session,
            &matching_uid(),
            &matching_key,
            &matching_host(),
            &leader(100, 999),
            at_expiry,
        ),
        MembershipVerdict::NotMember {
            reason: NotMemberReason::Expired {
                expired_at: session.expires_at()
            }
        }
    );
}

#[test]
fn validate_reports_valid_before_expiry() {
    let mut authority = authority();
    let session = establish_default(&mut authority);
    let validity = authority.validate(
        &session,
        &matching_host(),
        &leader(100, 999),
        MonotonicTime::from_nanos(1),
    );
    assert!(matches!(validity, SessionValidity::Valid { .. }));
}

#[test]
fn validate_reports_expired_after_ttl() {
    let mut authority = authority();
    let session = establish_default(&mut authority);
    let validity = authority.validate(
        &session,
        &matching_host(),
        &leader(100, 999),
        MonotonicTime::from_nanos(u64::try_from(Duration::from_secs(60).as_nanos()).unwrap()),
    );
    assert!(matches!(validity, SessionValidity::Expired { .. }));
}

#[test]
fn validate_reports_anchor_recycled_when_leader_is_confirmed_different() {
    let mut authority = authority();
    let session = establish_default(&mut authority);
    let validity = authority.validate(
        &session,
        &matching_host(),
        &leader(100, 111),
        MonotonicTime::from_nanos(1),
    );
    assert_eq!(validity, SessionValidity::AnchorRecycled);
}

#[test]
fn validate_does_not_reject_when_leader_is_simply_unobservable() {
    let mut authority = authority();
    let session = establish_default(&mut authority);
    let validity = authority.validate(
        &session,
        &matching_host(),
        &leader_unobservable(100),
        MonotonicTime::from_nanos(1),
    );
    assert!(matches!(validity, SessionValidity::Valid { .. }));
}

#[test]
fn validate_reports_host_mismatch() {
    let mut authority = authority();
    let session = establish_default(&mut authority);
    let wrong_host = Evidence::Present {
        value: HostId("other-host".to_string()),
        source: EvidenceSource::KernelObserved,
    };
    let validity = authority.validate(
        &session,
        &wrong_host,
        &leader(100, 999),
        MonotonicTime::from_nanos(1),
    );
    assert_eq!(validity, SessionValidity::HostMismatch);
}

#[test]
fn validate_ignores_missing_host_evidence() {
    let mut authority = authority();
    let session = establish_default(&mut authority);
    let validity = authority.validate(
        &session,
        &Evidence::Unsupported,
        &leader(100, 999),
        MonotonicTime::from_nanos(1),
    );
    assert!(matches!(validity, SessionValidity::Valid { .. }));
}

#[test]
fn validate_reports_terminated_after_terminate() {
    let mut authority = authority();
    let session = establish_default(&mut authority);
    assert_eq!(
        authority.terminate(session.id()),
        SessionTerminationOutcome::Terminated
    );
    let validity = authority.validate(
        &session,
        &matching_host(),
        &leader(100, 999),
        MonotonicTime::from_nanos(1),
    );
    assert_eq!(validity, SessionValidity::Terminated);
}

#[test]
fn validate_reports_foreign_issuer_after_restart() {
    let mut authority = authority();
    let session = establish_default(&mut authority);
    let restarted =
        SessionAuthority::new(IssuerInstanceId::new("agent-2"), Duration::from_secs(3600));
    let validity = restarted.validate(
        &session,
        &matching_host(),
        &leader(100, 999),
        MonotonicTime::from_nanos(1),
    );
    assert_eq!(
        validity,
        SessionValidity::ForeignIssuer {
            issued_by: IssuerInstanceId::new("agent-1")
        }
    );
}

#[test]
fn terminate_is_idempotent_and_reports_already_terminated() {
    let mut authority = authority();
    let session = establish_default(&mut authority);
    assert_eq!(
        authority.terminate(session.id()),
        SessionTerminationOutcome::Terminated
    );
    assert_eq!(
        authority.terminate(session.id()),
        SessionTerminationOutcome::AlreadyTerminated
    );
}

#[test]
fn establish_rejects_zero_ttl() {
    let mut authority = authority();
    let result = authority.establish(
        OWNER_UID,
        LocalSessionAnchor {
            key: SessionKey(1),
            leader: LeaderCorroboration::Recorded(leader(1, 1)),
        },
        scope(),
        IntentProof::LocalPeerPresence,
        SessionAssurance::LocalKernelSession,
        host(),
        nonce(),
        MonotonicTime::from_nanos(0),
        Duration::zero(),
    );
    assert_eq!(result, Err(SessionError::NonPositiveTtl));
}

#[test]
fn establish_rejects_ttl_over_maximum() {
    let mut authority = authority();
    let result = authority.establish(
        OWNER_UID,
        LocalSessionAnchor {
            key: SessionKey(1),
            leader: LeaderCorroboration::Recorded(leader(1, 1)),
        },
        scope(),
        IntentProof::LocalPeerPresence,
        SessionAssurance::LocalKernelSession,
        host(),
        nonce(),
        MonotonicTime::from_nanos(0),
        Duration::from_secs(999_999),
    );
    assert!(matches!(
        result,
        Err(SessionError::TtlExceedsMaximum { .. })
    ));
}

// ---- further cases ----

fn res(id: &str) -> ResourceIdentity {
    ResourceIdentity {
        vendor: ResourceVendor::new("fake"),
        kind: ResourceKind::gpu(),
        local_id: id.to_string(),
    }
}

#[test]
fn scope_is_sorted_without_repeats() {
    let scope = SessionScope::new(vec![res("2"), res("0"), res("2"), res("1")]).unwrap();
    let ids: Vec<&str> = scope.resources().iter().map(|r| r.local_id.as_str()).collect();
    assert_eq!(ids, vec!["0", "1", "2"]);
    assert!(scope.contains(&res("1")));
    assert!(!scope.contains(&res("3")));
}

#[test]
fn empty_scope_message() {
    let err = SessionScope::new(Vec::new()).unwrap_err();
    assert_eq!(err.message(), "session scope must name at least one resource");
}

#[test]
fn terminate_of_a_foreign_session_reports_foreign_issuer() {
    let mut a = authority();
    let session = establish_default(&mut a);
    let mut other = SessionAuthority::new(IssuerInstanceId::new("agent-2"), Duration::from_secs(3600));
    assert_eq!(
        other.terminate(session.id()),
        SessionTerminationOutcome::ForeignIssuer
    );
}

#[test]
fn established_session_records_its_inputs() {
    let mut a = authority();
    let session = establish_default(&mut a);
    assert_eq!(session.owner_uid(), OWNER_UID);
    assert_eq!(session.host(), &host());
    assert_eq!(session.established_at(), MonotonicTime::from_nanos(0));
    assert_eq!(session.expires_at(), MonotonicTime::from_nanos(60_000_000_000));
    assert_eq!(session.anchor().key, SessionKey(42));
}

#[test]
fn valid_session_reports_remaining_time() {
    let mut a = authority();
    let session = establish_default(&mut a);
    let validity = a.validate(
        &session,
        &matching_host(),
        &leader(100, 999),
        MonotonicTime::from_nanos(10_000_000_000),
    );
    assert_eq!(
        validity,
        SessionValidity::Valid {
            remaining: Duration::from_secs(50)
        }
    );
}

#[test]
fn establish_rejects_an_expiry_past_the_clock_range() {
    let mut a = authority();
    let result = a.establish(
        OWNER_UID,
        LocalSessionAnchor {
            key: SessionKey(1),
            leader: LeaderCorroboration::Unobserved,
        },
        scope(),
        IntentProof::LocalPeerPresence,
        SessionAssurance::LocalKernelSession,
        host(),
        nonce(),
        MonotonicTime::from_nanos(u64::MAX - 10),
        Duration::from_secs(60),
    );
    assert_eq!(result, Err(SessionError::ExpiryOverflow));
}

#[test]
fn session_nonce_debug_is_redacted() {
    assert_eq!(format!("{:?}", nonce()), "SessionNonce(<redacted>)");
    let mut a = authority();
    let session = establish_default(&mut a);
    let printed = format!("{:?}", session);
    assert!(printed.contains("SessionNonce(<redacted>)"));
    assert!(!printed.contains("7, 7, 7"));
}

#[test]
fn session_error_messages() {
    assert_eq!(
        SessionError::NonPositiveTtl.message(),
        "session ttl must be greater than zero"
    );
    assert_eq!(
        SessionError::TtlExceedsMaximum {
            requested: Duration::from_secs(999_999),
            maximum: Duration::from_secs(3600)
        }
        .message(),
        "session ttl 999999s exceeds authority maximum 3600s"
    );
    assert_eq!(
        SessionError::ExpiryOverflow.message(),
        "session expiry would overflow the monotonic clock range"
    );
}

#[test]
fn nth_successful_establish_gets_sequence_n() {
    let mut a = authority();
    let first = establish_default(&mut a);
    let refused = a.establish(
        OWNER_UID,
        LocalSessionAnchor {
            key: SessionKey(1),
            leader: LeaderCorroboration::Unobserved,
        },
        scope(),
        IntentProof::LocalPeerPresence,
        SessionAssurance::LocalKernelSession,
        host(),
        nonce(),
        MonotonicTime::from_nanos(0),
        Duration::zero(),
    );
    assert!(refused.is_err());
    let second = establish_default(&mut a);
    assert_eq!(first.id().sequence, 0);
    assert_eq!(second.id().sequence, 1);
}
