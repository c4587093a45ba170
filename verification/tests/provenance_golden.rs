use eltanin::identity::{Evidence, EvidenceSource, ExecutionContext, WorkloadIdentity};
use eltanin::provenance::ProvenanceRecord;
use eltanin::resource::{
    Action, ComputeRequest, ResourceIdentity, ResourceKind, ResourceVendor,
};

fn sample_context() -> ExecutionContext {
    ExecutionContext {
        workload: WorkloadIdentity {
            pid: 42,
            process_start: Evidence::Present {
                value: eltanin::identity::ProcessStartToken(100),
                source: EvidenceSource::KernelObserved,
            },
            uid: Evidence::Present {
                value: 1000,
                source: EvidenceSource::KernelObserved,
            },
            gid: Evidence::Present {
                value: 1000,
                source: EvidenceSource::KernelObserved,
            },
            executable_path: Evidence::Present {
                value: "/usr/bin/example".into(),
                source: EvidenceSource::BestEffort,
            },
            executable_hash: Evidence::Missing {
                reason: "hashing not implemented".into(),
            },
            ancestry: Vec::new(),
        },
        cgroup_path: Evidence::Present {
            value: "/sys/fs/cgroup/user.slice".into(),
            source: EvidenceSource::KernelObserved,
        },
        namespace_hint: Evidence::Unsupported,
        container_hint: Evidence::Unsupported,
        session_origin: Evidence::Missing {
            reason: "no session manager detected".into(),
        },
    }
}

fn sample_request() -> ComputeRequest {
    ComputeRequest {
        resource: ResourceIdentity {
            vendor: ResourceVendor::fake(),
            kind: ResourceKind::gpu(),
            local_id: "gpu-0".into(),
        },
        action: Action::Compute,
    }
}

#[test]
fn provenance_record_links_the_exact_request_it_was_built_with() {
    // A provenance record must not silently substitute a different
    // resource/action than the one actually requested — audit
    // reconstruction depends on this link being exact.
    let request = sample_request();
    let record = ProvenanceRecord::new(sample_context(), request.clone());
    assert_eq!(record.request, request);
}
