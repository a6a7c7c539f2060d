//! Declarative Btrfs subvolume provisioning library.
//!
//! The crate models a declarative subvolume configuration, classifies
//! subvolumes into their three classes, generates the systemd mount units
//! and snapshot-policy files that bind the tree into the init system, and
//! computes the decisions of the provisioning, mount, unmount and restore
//! workflows as pure functions from observed external state to the external
//! mutations that a thin driver performs.
use vstd::prelude::*;

pub mod attach;
pub mod btrbk;
pub mod classify;
pub mod codec;
pub mod command;
pub mod config;
pub mod ext4_sync;
pub mod hook_sync_systemd;
pub mod init;
pub mod mount;
pub mod restore;
pub mod strkit;
pub mod systemd;
pub mod unmount;

verus! {

/// The failures that the library's own logic can detect.
#[derive(Debug)]
pub enum Error {
    /// The configuration lacks the volume source path required at this point.
    MissingVhdxPath,
    /// The configuration lacks the target account name required at this point.
    MissingUser,
    /// A probed filesystem identifier came back empty.
    UuidNotFound,
    /// A snapshot name without the base-name/timestamp delimiter.
    InvalidSnapshotName,
    /// The configuration lacks the filesystem UUID that the mount workflow
    /// requires: the volume has not been formatted yet.
    MissingUuid,
    /// The configuration text could not be parsed.
    ParseFailure,
    /// Two mount targets mapped to one unit filename: installing would
    /// silently overwrite a unit, so generation refuses.
    UnitFilenameCollision,
}

impl Error {
    /// A human-readable description, for the driver to print.
    pub fn message(&self) -> (r: &'static str)
        ensures
            r@ == self.spec_message(),
    {
        match self {
            Error::MissingVhdxPath => "VHDX path is required",
            Error::MissingUser => "User is required",
            Error::UuidNotFound => "Could not get filesystem UUID",
            Error::InvalidSnapshotName => "Invalid snapshot name format",
            Error::MissingUuid => "UUID not set",
            Error::ParseFailure => "Failed to parse config file",
            Error::UnitFilenameCollision => "Two mount targets share one unit filename",
        }
    }

    pub open spec fn spec_message(&self) -> Seq<char> {
        match self {
            Error::MissingVhdxPath => "VHDX path is required"@,
            Error::MissingUser => "User is required"@,
            Error::UuidNotFound => "Could not get filesystem UUID"@,
            Error::InvalidSnapshotName => "Invalid snapshot name format"@,
            Error::MissingUuid => "UUID not set"@,
            Error::ParseFailure => "Failed to parse config file"@,
            Error::UnitFilenameCollision => "Two mount targets share one unit filename"@,
        }
    }
}

} // verus!
