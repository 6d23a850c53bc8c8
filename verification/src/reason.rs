//! Stable reason codes carried by blocked-environment markers.

use vstd::prelude::*;

verus! {

/// The disposable privileged Linux identity the Code runtime suites need
/// is not provisioned on this host.
pub const CODE_PRIVILEGED_TEST_IDENTITY_UNAVAILABLE: &'static str =
    "CODE_PRIVILEGED_TEST_IDENTITY_UNAVAILABLE";

/// The SSH/SFTP/SCP acceptance fixture stack is not running.
pub const SSH_ACCEPTANCE_FIXTURE_UNAVAILABLE: &'static str = "SSH_ACCEPTANCE_FIXTURE_UNAVAILABLE";

/// Docker, or a required prebuilt runtime image, is unavailable.
pub const CONTAINER_RUNTIME_UNAVAILABLE: &'static str = "CONTAINER_RUNTIME_UNAVAILABLE";

/// The test process cannot map a non-root Linux identity.
pub const LINUX_IDENTITY_UNAVAILABLE: &'static str = "LINUX_IDENTITY_UNAVAILABLE";

/// A required media tool (`ffmpeg`/`ffprobe`) is not installed.
pub const MEDIA_TOOLING_UNAVAILABLE: &'static str = "MEDIA_TOOLING_UNAVAILABLE";

} // verus!
