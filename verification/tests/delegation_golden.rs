use eltanin::delegation::DelegationGrant;

/// Answers `true` through the by-value method when `T` can be
/// deserialized, `false` through the auto-referenced fallback otherwise.
struct GrantProbe<T>(std::marker::PhantomData<T>);

trait DeserializableGrant {
    fn is_deserializable(&self) -> bool {
        true
    }
}

impl<T: serde::de::DeserializeOwned> DeserializableGrant for GrantProbe<T> {}

trait FallbackGrant {
    fn is_deserializable(&self) -> bool {
        false
    }
}

impl<T> FallbackGrant for &GrantProbe<T> {}

#[test]
fn delegation_grant_source_never_derives_deserialize() {
    let probe = GrantProbe::<DelegationGrant>(std::marker::PhantomData);
    assert!(
        !(&probe).is_deserializable(),
        "DelegationGrant must never be deserializable: grants are ephemeral"
    );
}
