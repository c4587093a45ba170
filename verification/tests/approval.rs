use eltanin::approval::{
    recall, Approval, ApprovalBinding, ApprovalDisposition, ApprovalDocument, ApprovalEntry,
    ApprovalError, ApprovalId, ApprovalSet, ChangedDimension, ExecutableDigest, RecallVerdict,
};
use eltanin::envelope::{Versioned, DOMAIN_SCHEMA_VERSION};
use eltanin::identity::{
    Evidence, EvidenceSource, ExecutionContext, ProcessAncestor, ProcessStartToken,
    WorkloadIdentity,
};
use eltanin::policy::{PolicyId, PolicyProvenance};
use eltanin::resource::{
    Action, Capability, ComputeRequest, ResourceCapabilities, ResourceIdentity, ResourceKind,
    ResourceVendor,
};

fn present<T>(value: T) -> Evidence<T> {
    Evidence::Present {
        value,
        source: EvidenceSource::KernelObserved,
    }
}

fn resource() -> ResourceIdentity {
    ResourceIdentity {
        vendor: ResourceVendor::new("fake"),
        kind: ResourceKind::gpu(),
        local_id: "0".to_string(),
    }
}

fn capabilities() -> ResourceCapabilities {
    ResourceCapabilities::new(vec![Capability::ControlledLaunch])
}

fn policy() -> PolicyProvenance {
    PolicyProvenance {
        policy_id: PolicyId::new("p1"),
        policy_revision: 1,
        schema_version: DOMAIN_SCHEMA_VERSION,
    }
}

fn binding() -> ApprovalBinding {
    ApprovalBinding {
        owner_uid: 1000,
        launcher_path: "/usr/bin/trusted".to_string(),
        launcher_digest: Some(ExecutableDigest::new("sha256:abc")),
        cgroup_path: None,
        capabilities: capabilities(),
        policy: policy(),
    }
}

fn approval() -> Approval {
    Approval::new(
        binding(),
        resource(),
        Action::Compute,
        ApprovalDisposition::Remember,
    )
}

fn workload() -> WorkloadIdentity {
    WorkloadIdentity {
        pid: 100,
        process_start: present(ProcessStartToken(1)),
        uid: present(1000u32),
        gid: present(1000u32),
        executable_path: present("/usr/bin/trusted".to_string()),
        executable_hash: present("sha256:abc".to_string()),
        ancestry: Vec::<ProcessAncestor>::new(),
    }
}

fn context() -> ExecutionContext {
    ExecutionContext {
        workload: workload(),
        cgroup_path: Evidence::Unsupported,
        namespace_hint: Evidence::Unsupported,
        container_hint: Evidence::Unsupported,
        session_origin: Evidence::Unsupported,
    }
}

fn request() -> ComputeRequest {
    ComputeRequest {
        resource: resource(),
        action: Action::Compute,
    }
}

#[test]
fn same_id_for_same_binding_and_request() {
    let a = approval();
    let b = approval();
    assert_eq!(a.id(), b.id());
}

#[test]
fn recall_matches_unchanged_context() {
    let approval = approval();
    let verdict = recall(
        &approval,
        &context(),
        &capabilities(),
        &policy(),
        &request(),
    );
    assert_eq!(
        verdict,
        RecallVerdict::Matched {
            id: approval.id().clone()
        }
    );
}

#[test]
fn recall_reports_changed_owner_uid() {
    let approval = approval();
    let mut ctx = context();
    ctx.workload.uid = present(2000u32);
    let verdict = recall(&approval, &ctx, &capabilities(), &policy(), &request());
    assert_eq!(
        verdict,
        RecallVerdict::NotMatched {
            changed: vec![ChangedDimension::OwnerUid]
        }
    );
}

#[test]
fn recall_reports_changed_launcher_digest_on_replacement() {
    let approval = approval();
    let mut ctx = context();
    ctx.workload.executable_hash = present("sha256:different".to_string());
    let verdict = recall(&approval, &ctx, &capabilities(), &policy(), &request());
    assert_eq!(
        verdict,
        RecallVerdict::NotMatched {
            changed: vec![ChangedDimension::LauncherDigest]
        }
    );
}

#[test]
fn recall_accepts_best_effort_digest_evidence() {
    let approval = approval();
    let mut ctx = context();
    ctx.workload.executable_hash = Evidence::Present {
        value: "sha256:abc".to_string(),
        source: EvidenceSource::BestEffort,
    };
    let verdict = recall(&approval, &ctx, &capabilities(), &policy(), &request());
    assert!(matches!(verdict, RecallVerdict::Matched { .. }));
}

#[test]
fn recall_rejects_self_asserted_digest_evidence() {
    let approval = approval();
    let mut ctx = context();
    ctx.workload.executable_hash = Evidence::Present {
        value: "sha256:abc".to_string(),
        source: EvidenceSource::SelfAsserted,
    };
    let verdict = recall(&approval, &ctx, &capabilities(), &policy(), &request());
    assert!(matches!(verdict, RecallVerdict::Indeterminate { .. }));
}

#[test]
fn recall_missing_uid_evidence_is_indeterminate_not_not_matched() {
    let approval = approval();
    let mut ctx = context();
    ctx.workload.uid = Evidence::Missing {
        reason: "no uid".to_string(),
    };
    let verdict = recall(&approval, &ctx, &capabilities(), &policy(), &request());
    assert!(matches!(verdict, RecallVerdict::Indeterminate { .. }));
}

#[test]
fn recall_reports_changed_capabilities() {
    let approval = approval();
    let other_caps = ResourceCapabilities::new(vec![Capability::DeviceEnforce]);
    let verdict = recall(&approval, &context(), &other_caps, &policy(), &request());
    assert_eq!(
        verdict,
        RecallVerdict::NotMatched {
            changed: vec![ChangedDimension::ResourceCapabilityState]
        }
    );
}

#[test]
fn recall_reports_changed_policy_revision() {
    let approval = approval();
    let mut other_policy = policy();
    other_policy.policy_revision = 2;
    let verdict = recall(
        &approval,
        &context(),
        &capabilities(),
        &other_policy,
        &request(),
    );
    assert_eq!(
        verdict,
        RecallVerdict::NotMatched {
            changed: vec![ChangedDimension::PolicyRevision]
        }
    );
}

#[test]
fn recall_ignores_cgroup_when_binding_recorded_none() {
    let approval = approval();
    let mut ctx = context();
    ctx.cgroup_path = present("/sys/fs/cgroup/foo".to_string());
    let verdict = recall(&approval, &ctx, &capabilities(), &policy(), &request());
    // A binding with no cgroup expectation meeting an observed cgroup is
    // itself a material change.
    assert_eq!(
        verdict,
        RecallVerdict::NotMatched {
            changed: vec![ChangedDimension::CgroupPath]
        }
    );
}

#[test]
fn recall_skips_digest_dimension_when_binding_has_none() {
    let mut binding = binding();
    binding.launcher_digest = None;
    let approval = Approval::new(
        binding,
        resource(),
        Action::Compute,
        ApprovalDisposition::Remember,
    );
    let mut ctx = context();
    ctx.workload.executable_hash = present("sha256:whatever-different".to_string());
    let verdict = recall(&approval, &ctx, &capabilities(), &policy(), &request());
    assert!(matches!(verdict, RecallVerdict::Matched { .. }));
}

fn entry_from(binding: ApprovalBinding) -> ApprovalEntry {
    ApprovalEntry {
        owner_uid: binding.owner_uid,
        launcher_path: binding.launcher_path,
        launcher_digest: binding.launcher_digest.map(|d| d.as_str().to_string()),
        cgroup_path: binding.cgroup_path,
        capabilities: binding.capabilities,
        policy_id: binding.policy.policy_id.as_str().to_string(),
        policy_revision: binding.policy.policy_revision,
        schema_version: binding.policy.schema_version,
        resource: resource(),
        action: Action::Compute,
        disposition: ApprovalDisposition::Remember,
    }
}

#[test]
fn empty_launcher_path_is_rejected_by_from_document() {
    let mut entry_binding = binding();
    entry_binding.launcher_path = String::new();
    let document = ApprovalDocument {
        entries: vec![entry_from(entry_binding)],
    };
    assert_eq!(
        ApprovalSet::from_document(document),
        Err(ApprovalError::EmptyLauncherPath)
    );
}

#[test]
fn document_round_trip_preserves_content() {
    let mut set = ApprovalSet::new();
    set.insert(approval());
    let document = set.to_document();
    let restored = ApprovalSet::from_document(document).unwrap();
    assert_eq!(restored.approvals().len(), 1);
    assert_eq!(restored.approvals()[0].id(), approval().id());
}

#[test]
fn candidates_orders_deny_first() {
    let mut set = ApprovalSet::new();
    let mut deny_binding = binding();
    deny_binding.owner_uid = 4242;
    let deny = Approval::new(
        deny_binding,
        resource(),
        Action::Compute,
        ApprovalDisposition::Deny,
    );
    set.insert(approval());
    set.insert(deny.clone());
    let ordered: Vec<&Approval> = set.candidates(&resource(), Action::Compute);
    assert_eq!(ordered.len(), 2);
    assert_eq!(ordered[0].disposition(), ApprovalDisposition::Deny);
}

#[test]
fn insert_replaces_existing_entry_with_same_id() {
    let mut set = ApprovalSet::new();
    set.insert(approval());
    let mut denied_binding = binding();
    denied_binding.capabilities = capabilities();
    let denied = Approval::new(
        denied_binding,
        resource(),
        Action::Compute,
        ApprovalDisposition::Deny,
    );
    set.insert(denied);
    assert_eq!(set.approvals().len(), 1);
    assert_eq!(set.approvals()[0].disposition(), ApprovalDisposition::Deny);
}

// ---- further cases ----

#[test]
fn approval_id_is_a_64_char_lowercase_hex_digest() {
    let id = approval().id().clone();
    assert_eq!(id.as_str().len(), 64);
    assert!(id
        .as_str()
        .chars()
        .all(|c| c.is_ascii_digit() || ('a'..='f').contains(&c)));
}

#[test]
fn approval_id_depends_on_the_owner_uid() {
    let mut other = binding();
    other.owner_uid = 1001;
    let b = Approval::new(other, resource(), Action::Compute, ApprovalDisposition::Remember);
    assert_ne!(approval().id(), b.id());
}

#[test]
fn approval_id_ignores_the_disposition() {
    let b = Approval::new(binding(), resource(), Action::Compute, ApprovalDisposition::Deny);
    assert_eq!(approval().id(), b.id());
}

#[test]
fn recall_for_another_action_is_indeterminate() {
    let req = ComputeRequest {
        resource: resource(),
        action: Action::Unknown,
    };
    let verdict = recall(&approval(), &context(), &capabilities(), &policy(), &req);
    assert!(matches!(verdict, RecallVerdict::Indeterminate { .. }));
}

#[test]
fn empty_policy_id_is_rejected_by_from_document() {
    let mut b = binding();
    b.policy.policy_id = PolicyId::new("");
    let document = ApprovalDocument {
        entries: vec![entry_from(b)],
    };
    assert_eq!(
        ApprovalSet::from_document(document),
        Err(ApprovalError::EmptyPolicyId)
    );
}

#[test]
fn foreign_version_is_rejected_by_from_versioned() {
    let env = Versioned {
        version: DOMAIN_SCHEMA_VERSION + 1,
        payload: ApprovalDocument { entries: vec![] },
    };
    assert!(matches!(
        ApprovalSet::from_versioned(env),
        Err(ApprovalError::UnsupportedVersion(_))
    ));
}

#[test]
fn remove_then_get_reports_absent() {
    let mut set = ApprovalSet::new();
    let a = approval();
    let id: ApprovalId = a.id().clone();
    set.insert(a);
    assert!(set.get(&id).is_some());
    assert!(set.remove(&id));
    assert!(set.get(&id).is_none());
    assert!(!set.remove(&id));
}

#[test]
fn owned_by_returns_only_that_owner() {
    let mut set = ApprovalSet::new();
    let mut other = binding();
    other.owner_uid = 4242;
    set.insert(approval());
    set.insert(Approval::new(other, resource(), Action::Compute, ApprovalDisposition::Deny));
    let mine = set.owned_by(1000);
    assert_eq!(mine.len(), 1);
    assert_eq!(mine[0].binding().owner_uid, 1000);
}

#[test]
fn approval_error_messages() {
    assert_eq!(
        ApprovalError::EmptyLauncherPath.message(),
        "approval launcher_path must not be empty"
    );
    assert_eq!(
        ApprovalError::EmptyPolicyId.message(),
        "approval policy_id must not be empty"
    );
    let env = Versioned {
        version: 9,
        payload: ApprovalDocument { entries: vec![] },
    };
    let err = ApprovalSet::from_versioned(env).unwrap_err();
    assert_eq!(
        err.message(),
        format!("unsupported domain schema version: found 9, expected {}", DOMAIN_SCHEMA_VERSION)
    );
}

#[test]
fn approval_id_is_the_digest_of_the_identity_dimensions() {
    // sha256 of 1000 (le) \0 /usr/bin/trusted \0 sha256:abc \0 \0 fake \0 gpu \0 0 \0 0x01
    assert_eq!(
        approval().id().as_str(),
        "d6cd909c23c2732a3416293cd3ad72507bb59699dcdb5ffc446d9f760337609e"
    );
}
