//! Protocol versions, compared for exact equality during the handshake.

use vstd::prelude::*;

verus! {

/// A semantic version. The handshake accepts a client only when its version
/// equals the server's exactly; no range negotiation exists.
#[derive(Clone, Copy, Debug, PartialEq, Eq, Structural)]
pub struct SemanticVersion {
    pub major: u32,
    pub minor: u32,
    pub patch: u32,
}

/// The version this build of the server reports and accepts.
pub open spec fn spec_server_version() -> SemanticVersion {
    SemanticVersion { major: 1, minor: 0, patch: 0 }
}

/// The version this build of the server reports and accepts.
pub fn server_version() -> (v: SemanticVersion)
    ensures
        v == spec_server_version(),
{
    SemanticVersion { major: 1, minor: 0, patch: 0 }
}

} // verus!
