//! The ways an installation step can fail.

use vstd::prelude::*;

verus! {

/// Why a lookup, a resolution, an installation or a self-update failed.
#[derive(Debug)]
pub enum InstallError {
    /// No application of the configuration has this name or binary name.
    AppNotFound { name: String },
    /// A repository is not written `owner/name`.
    InvalidRepository { repo: String },
    /// The API quota is used up until the given Unix time.
    RateLimited { reset: u64 },
    /// The rate-limit service answered with something that is not JSON.
    UnexpectedResponse,
    /// The release service answered with an error status.
    HttpStatus { code: u16, body: String },
    /// The repository has no release.
    NoRelease,
    /// A version was needed and none could be determined.
    LatestVersionUnknown,
    /// A version text is not a semantic version.
    InvalidVersion { version: String },
    /// No asset of the release targets this platform.
    NoPlatformAsset,
    /// The only matching asset has no download URL.
    NoDownloadUrl,
    /// Several assets match and none has a download URL.
    NoAssetWithUrl,
    /// The asset name does not target the platform.
    NoMatch,
    /// The download is not a `.tar`, `.tar.gz`, `.tgz` or `.zip` archive.
    UnsupportedArchive { url: String },
    /// The archive holds no file named after the binary.
    BinaryNotFound { bin: String },
    /// The application declares no command for this step.
    MissingCommand,
    /// A shell command exited unsuccessfully.
    CommandFailed { command: String, stderr: String },
    /// Templates cannot be rendered for this operating system and architecture.
    UnsupportedPlatform { os: String, arch: String },
    /// The running executable cannot be replaced.
    PermissionDenied { path: String },
}

} // verus!
