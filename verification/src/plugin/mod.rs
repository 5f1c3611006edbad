//! The CS2KZ plugin: published versions and the checksums of their builds.

pub mod version;

pub use self::version::PluginVersion;

use self::version::semver_greater;
use crate::checksum::Checksum;
use crate::maps::map::DatabaseError;
use vstd::prelude::*;

verus! {

/// An operating system the plugin is built for.
#[derive(Debug, Clone, Copy, PartialEq, Eq, Structural)]
pub enum Os {
    Linux,
    Windows,
}

/// The checksums of a plugin build for each operating system.
#[derive(Debug, Clone, Copy, PartialEq, Eq, Structural)]
pub struct Checksums {
    pub linux: Checksum,
    pub windows: Checksum,
}

impl Checksums {
    /// The checksum for `os` (`Index<Os>`).
    pub fn index(&self, os: Os) -> (r: &Checksum)
        ensures
            *r == match os {
                Os::Linux => self.linux,
                Os::Windows => self.windows,
            },
    {
        match os {
            Os::Linux => &self.linux,
            Os::Windows => &self.windows,
        }
    }
}

/// Why a plugin version could not be created.
#[derive(Debug)]
pub enum CreatePluginVersionError {
    /// version already exists
    VersionAlreadyExists,
    /// version is older than the latest
    VersionOlderThanLatest { latest: PluginVersion },
    /// The database failed.
    DatabaseError(DatabaseError),
}

/// Checks a new version against the latest published one:
/// a version older than the latest is refused, and the
/// latest version comes back with the error.
pub fn check_new_version(latest: Option<PluginVersion>, version: &PluginVersion) -> (r: Result<
    (),
    CreatePluginVersionError,
>)
    ensures
        match latest {
            Some(l) => if semver_greater(l.parts(), version.parts()) {
                r matches Err(CreatePluginVersionError::VersionOlderThanLatest { latest: returned })
                    && returned.parts() == l.parts()
            } else {
                r is Ok
            },
            None => r is Ok,
        },
        match latest {
            Some(l) => l.parts() == version.parts() ==> r is Ok,
            None => true,
        },
{
    match latest {
        Some(l) => {
            if l.is_newer_than(version) {
                Err(CreatePluginVersionError::VersionOlderThanLatest { latest: l })
            } else {
                Ok(())
            }
        },
        None => Ok(()),
    }
}

/// Classifies a failed insertion of a new version: a failure that violates
/// both the unique git revision and the unique version constraint means the
/// version already exists; any other failure is a database error.
pub fn classify_insert_failure(
    error: DatabaseError,
    violates_unique_git_revision: bool,
    violates_unique_version: bool,
) -> (r: CreatePluginVersionError)
    ensures
        violates_unique_git_revision && violates_unique_version ==> r is VersionAlreadyExists,
        !(violates_unique_git_revision && violates_unique_version) ==> r
            == CreatePluginVersionError::DatabaseError(error),
{
    if violates_unique_git_revision && violates_unique_version {
        CreatePluginVersionError::VersionAlreadyExists
    } else {
        CreatePluginVersionError::DatabaseError(error)
    }
}

/// The operating system a checksum was found for: the
/// checksum matched the Linux build or the Windows build.
pub fn os_of_match(is_linux: bool, is_windows: bool) -> (r: Os)
    ensures
        is_linux ==> r == Os::Linux,
        !is_linux ==> r == Os::Windows,
{
    if is_linux {
        Os::Linux
    } else {
        Os::Windows
    }
}

} // verus!
