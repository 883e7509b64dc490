//! Protocol version and compatibility rules.
use vstd::prelude::*;

verus! {

/// A `(major, minor)` protocol version.
///
/// Compatibility rule: two peers can talk if their `major` matches. The lower
/// `minor` of the two governs which optional features may be used.
#[derive(Debug, Clone, Copy, PartialEq, Eq, Hash, Structural)]
pub struct Version {
    pub major: u16,
    pub minor: u16,
}

/// The protocol version this build speaks: 1.0.
pub open spec fn spec_protocol_version() -> Version {
    Version { major: 1, minor: 0 }
}

/// The protocol version this build speaks.
#[verifier::when_used_as_spec(spec_protocol_version)]
pub fn protocol_version() -> (v: Version)
    ensures
        v == spec_protocol_version(),
{
    Version { major: 1, minor: 0 }
}

/// The peers' protocol majors are incompatible.
#[derive(Debug, Clone, Copy, PartialEq, Eq, Structural)]
pub struct VersionError {
    pub local: Version,
    pub remote: Version,
}

/// The version a session between `a` and `b` runs at: same major, the smaller
/// minor; `None` when the majors differ.
pub open spec fn negotiated(a: Version, b: Version) -> Option<Version> {
    if a.major != b.major {
        None
    } else {
        Some(Version { major: a.major, minor: if a.minor <= b.minor { a.minor } else { b.minor } })
    }
}

impl Version {
    pub fn new(major: u16, minor: u16) -> (v: Version)
        ensures
            v == (Version { major, minor }),
    {
        Version { major, minor }
    }

    /// Whether `self` (the local version) can communicate with `other` (the
    /// remote's advertised version).
    pub fn is_compatible_with(self, other: Version) -> (b: bool)
        ensures
            b == (self.major == other.major),
    {
        self.major == other.major
    }

    /// The effective version for a session between `self` and `other`: same
    /// major, the smaller minor. An error if the majors differ.
    pub fn negotiate(self, other: Version) -> (r: Result<Version, VersionError>)
        ensures
            match negotiated(self, other) {
                Some(v) => r == Ok::<Version, VersionError>(v),
                None => r == Err::<Version, VersionError>(VersionError { local: self, remote: other }),
            },
    {
        if self.major != other.major {
            return Err(VersionError { local: self, remote: other });
        }
        Ok(Version { major: self.major, minor: if self.minor <= other.minor { self.minor } else { other.minor } })
    }
}

/// Negotiation is symmetric, succeeds exactly for compatible peers, never
/// raises a minor, and a version negotiates with itself to itself.
pub proof fn lemma_negotiate_laws(a: Version, b: Version)
    ensures
        negotiated(a, b) == negotiated(b, a),
        negotiated(a, b) is Some <==> a.major == b.major,
        negotiated(a, b) matches Some(v) ==> v.major == a.major && v.minor <= a.minor && v.minor
            <= b.minor && (v.minor == a.minor || v.minor == b.minor),
        negotiated(a, a) == Some(a),
{
}

} // verus!
