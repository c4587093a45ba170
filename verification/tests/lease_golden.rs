use eltanin::lease::ComputeLease;

/// Answers `true` through the by-value method when `T` can be
/// deserialized, `false` through the auto-referenced fallback otherwise.
struct Probe<T>(std::marker::PhantomData<T>);

trait DeserializableProbe {
    fn is_deserializable(&self) -> bool {
        true
    }
}

impl<T: serde::de::DeserializeOwned> DeserializableProbe for Probe<T> {}

trait FallbackProbe {
    fn is_deserializable(&self) -> bool {
        false
    }
}

impl<T> FallbackProbe for &Probe<T> {}

#[test]
fn compute_lease_source_never_derives_deserialize() {
    let probe = Probe::<ComputeLease>(std::marker::PhantomData);
    assert!(
        !(&probe).is_deserializable(),
        "ComputeLease must never be deserializable: no reusable plaintext bearer token"
    );
}

#[test]
fn the_deserialize_probe_does_detect_a_deserializable_type() {
    let probe = Probe::<String>(std::marker::PhantomData);
    assert!((&probe).is_deserializable());
}
