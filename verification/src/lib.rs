//! Boot-time generator of systemd units that gate the mounting of bcachefs
//! file systems behind an unlock step.
//!
//! The library is the pure planning pipeline: it turns mount-table records
//! and the kernel command line into the names, contents and symlink targets
//! of the generated units.  All strings are handled as byte sequences, since
//! systemd's unit-name encoding is defined over bytes.
use vstd::prelude::*;

pub mod bytes;
pub mod cmdline;
pub mod deps;
pub mod device;
pub mod escape;
pub mod plan;
pub mod unit;

verus! {

/// Errors of the planning pipeline.
#[derive(Debug, Clone, Copy, PartialEq, Eq, Structural)]
pub enum GenError {
    /// A path handed to the escaper was not absolute.
    InvalidPath,
    /// A mount-table device field matched none of the known forms.
    UnrecognizedDeviceSpec,
}

} // verus!
