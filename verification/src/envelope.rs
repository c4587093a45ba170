//! Versioned envelope for domain documents: a schema change is explicit
//! rather than a silent reinterpretation of old bytes as a new shape.

use vstd::prelude::*;

verus! {

/// The one domain schema version this build understands.
pub const DOMAIN_SCHEMA_VERSION: u16 = 3u16;

/// A domain payload wrapped with an explicit schema version.
#[derive(Debug, Clone, PartialEq, Eq)]
pub struct Versioned<T> {
    pub version: u16,
    pub payload: T,
}

/// Decoding an envelope whose version this build does not understand.
#[derive(Debug, Clone, Copy, PartialEq, Eq, Structural)]
pub struct UnsupportedVersion {
    pub found: u16,
    pub expected: u16,
}

impl UnsupportedVersion {
    /// The human-readable description of this error.
    pub fn message(&self) -> (s: String)
        ensures
            s@ == "unsupported domain schema version: found "@ + crate::decimal::decimal(
                self.found as nat,
            ) + ", expected "@ + crate::decimal::decimal(self.expected as nat),
    {
        let mut out = crate::text::string_of("unsupported domain schema version: found ");
        crate::decimal::push_decimal(&mut out, self.found as u128);
        crate::text::push_str(&mut out, ", expected ");
        crate::decimal::push_decimal(&mut out, self.expected as u128);
        out
    }
}

impl<T> Versioned<T> {
    /// Wrap `payload` at the current schema version.
    pub fn current(payload: T) -> (v: Self)
        ensures
            v.version == DOMAIN_SCHEMA_VERSION,
            v.payload == payload,
    {
        Versioned { version: DOMAIN_SCHEMA_VERSION, payload }
    }

    /// The payload, when and only when the envelope carries
    /// [`DOMAIN_SCHEMA_VERSION`]; there is no migration path.
    pub fn into_current(self) -> (r: Result<T, UnsupportedVersion>)
        ensures
            self.version == DOMAIN_SCHEMA_VERSION ==> r == Ok::<T, UnsupportedVersion>(
                self.payload,
            ),
            self.version != DOMAIN_SCHEMA_VERSION ==> r == Err::<T, UnsupportedVersion>(
                UnsupportedVersion { found: self.version, expected: DOMAIN_SCHEMA_VERSION },
            ),
    {
        if self.version == DOMAIN_SCHEMA_VERSION {
            Ok(self.payload)
        } else {
            Err(UnsupportedVersion { found: self.version, expected: DOMAIN_SCHEMA_VERSION })
        }
    }
}

} // verus!
