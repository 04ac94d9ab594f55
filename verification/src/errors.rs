//! Error taxonomy for the installation manager.

use vstd::prelude::*;

verus! {

/// Why a query against the remote release feed failed.
#[derive(Clone, Copy, Debug, PartialEq, Eq, Structural)]
pub enum NetworkError {
    /// The feed endpoint could not be reached at all.
    Connectivity,
    /// The endpoint answered with a non-success status code.
    NonSuccess,
    /// The endpoint answered, but no version identifier could be read
    /// from the reply.
    Malformed,
}

/// Why a single streamed artifact transfer failed.
#[derive(Clone, Copy, Debug, PartialEq, Eq, Structural)]
pub enum FetchError {
    /// The remote host could not be reached.
    Connectivity,
    /// The remote host answered with a non-success status code.
    NonSuccess,
    /// The received bytes could not be written out.
    WriteFault,
    /// The stream broke before all declared bytes arrived.
    Interrupted,
}

/// Why an install operation failed as a whole.
#[derive(Clone, Copy, Debug, PartialEq, Eq, Structural)]
pub enum InstallError {
    /// The versioned executable artifact could not be fetched; this is
    /// always fatal to the install.
    Executable(FetchError),
    /// The icon could not be fetched and no installed or cached copy
    /// exists to fall back to.
    IconUnavailable,
    /// The desktop entry could not be fetched and no cached template
    /// exists to render one from.
    TemplateUnavailable,
}

/// The top-level error surface of the manager's operations.
#[derive(Clone, Copy, Debug, PartialEq, Eq, Structural)]
pub enum Error {
    /// The platform's data directory could not be determined; fatal and
    /// not recoverable by retry.
    PlatformResolution,
    /// The release feed could not be consulted.
    Network(NetworkError),
    /// An unexpected filesystem fault (an absent directory is not one).
    Filesystem,
    /// The default-version selection could not be persisted.
    ConfigWrite,
    /// An installed executable could not be started.
    Launch,
    /// An install operation failed; the payload says at which stage.
    Install(InstallError),
}

} // verus!
