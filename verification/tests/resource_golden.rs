use eltanin::envelope::{Versioned, DOMAIN_SCHEMA_VERSION};
use eltanin::resource::{
    AcceleratorMemory, Action, Capability, ComputeRequest, EnforcementResult, ProtectedResource,
    ResourceCapabilities, ResourceIdentity, ResourceKind, ResourceVendor,
};

fn sample_resource() -> ProtectedResource {
    ProtectedResource {
        identity: ResourceIdentity {
            vendor: ResourceVendor::fake(),
            kind: ResourceKind::gpu(),
            local_id: "fake-gpu-0".to_string(),
        },
        capabilities: ResourceCapabilities::new(vec![
            Capability::DiscoverResource,
            Capability::ObserveResource,
            Capability::Authorize,
            Capability::DeviceEnforce,
        ]),
        memory: AcceleratorMemory::NotReportable,
    }
}

#[test]
fn unsupported_schema_version_fails_explicitly() {
    let envelope = Versioned {
        version: DOMAIN_SCHEMA_VERSION + 1,
        payload: sample_resource(),
    };
    let err = envelope.into_current().unwrap_err();
    assert_eq!(err.found, DOMAIN_SCHEMA_VERSION + 1);
    assert_eq!(err.expected, DOMAIN_SCHEMA_VERSION);
}

#[test]
fn capability_check_reflects_actual_support_not_assumption() {
    let caps =
        ResourceCapabilities::new(vec![Capability::DiscoverResource, Capability::ObserveResource]);
    assert!(caps.supports(Capability::DiscoverResource));
    assert!(!caps.supports(Capability::DeviceEnforce));
}

