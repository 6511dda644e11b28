//! The errors of the snapshot subsystem and their wire-stable messages.

use vstd::prelude::*;
use vstd::string::*;

use crate::snapshot::version::{self, Version};
use crate::text::{self, push_decimal, push_hex_prefixed};

verus! {

/// The error that operating-system calls report.
#[verifier::external_type_specification]
#[verifier::external_body]
pub struct ExIoError(std::io::Error);

/// Errors produced by the snapshot subsystem. The message of each is part of the
/// public interface.
#[derive(Debug)]
#[non_exhaustive]
pub enum SnapshotError {
    /// A vCPU did not acknowledge the quiesce request in time.
    QuiesceTimeout,
    /// The file does not carry the magic of this architecture.
    MagicMismatch { found: u64, expected: u64 },
    /// The version of the file cannot be loaded by this build.
    VersionMismatch { found: Version, expected: Version },
    /// The checksum of the file does not match its trailer.
    CrcMismatch,
    /// The file is shorter than the checksum trailer.
    TooShort,
    /// The contents come from a different monitor.
    Incompatible,
    /// Renaming the temporary file onto the destination failed.
    AtomicCommitFailed(std::io::Error),
    /// The temporary file and the destination are on different filesystems. Both
    /// paths are held as quoted text.
    AtomicCommitCrossFs { dest: String, temp_dir: String },
    /// A path or configuration that did not pass validation.
    InvalidPath(String),
    /// The envelope could not be encoded or decoded.
    Bitcode(String),
    /// The file is larger than the decoding limit.
    SizeLimitExceeded { limit: usize },
    /// Writing or reading the memory file failed.
    MemoryIo(std::io::Error),
    /// Reading or writing the state file failed.
    Io(std::io::Error),
}

/// The message of `e`, where `detail` is the text of the operating-system error that
/// `e` carries, if it carries one.
pub open spec fn message_of(e: SnapshotError, detail: Seq<char>) -> Seq<char> {
    match e {
        SnapshotError::QuiesceTimeout => "a vCPU did not ack quiesce within the timeout"@,
        SnapshotError::MagicMismatch { found, expected } => "snapshot magic mismatch (file: "@
            + text::hex_prefixed(found as nat) + ", expected: "@ + text::hex_prefixed(
            expected as nat,
        ) + ")"@,
        SnapshotError::VersionMismatch { found, expected } => "snapshot version "@
            + version::version_text(found@) + " is incompatible with squib's "@
            + version::version_text(expected@),
        SnapshotError::CrcMismatch => "snapshot CRC64 mismatch"@,
        SnapshotError::TooShort => "snapshot file is too short to contain a CRC trailer"@,
        SnapshotError::Incompatible => {
            "snapshot is from a different VMM (sysreg or GIC blob shape mismatch)"@
        },
        SnapshotError::AtomicCommitFailed(_) => "atomic commit (rename) failed: "@ + detail,
        SnapshotError::AtomicCommitCrossFs { dest, temp_dir } => {
            "snapshot temp-file path is on a different filesystem from the destination (dest="@
                + dest@ + ", temp_dir="@ + temp_dir@
                + "); rename(2) cannot be atomic across mounts"@
        },
        SnapshotError::InvalidPath(why) => "invalid snapshot path: "@ + why@,
        SnapshotError::Bitcode(why) => "snapshot encoding error: "@ + why@,
        SnapshotError::SizeLimitExceeded { limit } => "snapshot exceeds "@ + text::decimal(
            limit as nat,
        ) + " byte deserialization limit"@,
        SnapshotError::MemoryIo(_) => "memory file I/O error: "@ + detail,
        SnapshotError::Io(_) => "snapshot I/O error: "@ + detail,
    }
}

/// `std::io::Error`'s `to_string` gives the text of the error. The text depends on
/// the operating system, so nothing is said of it.
#[verifier::external_body]
fn io_error_text(e: &std::io::Error) -> (s: String) {
    e.to_string()
}

impl SnapshotError {
    /// The message of the error, with `detail` for the text of the operating-system
    /// error that it carries.
    pub fn message_with(&self, detail: &str) -> (s: String)
        ensures
            s@ == message_of(*self, detail@),
    {
        let mut s = String::new();
        match self {
            SnapshotError::QuiesceTimeout => {
                s.append("a vCPU did not ack quiesce within the timeout");
            },
            SnapshotError::MagicMismatch { found, expected } => {
                s.append("snapshot magic mismatch (file: ");
                push_hex_prefixed(&mut s, *found);
                s.append(", expected: ");
                push_hex_prefixed(&mut s, *expected);
                s.append(")");
            },
            SnapshotError::VersionMismatch { found, expected } => {
                s.append("snapshot version ");
                found.push_text(&mut s);
                s.append(" is incompatible with squib's ");
                expected.push_text(&mut s);
            },
            SnapshotError::CrcMismatch => {
                s.append("snapshot CRC64 mismatch");
            },
            SnapshotError::TooShort => {
                s.append("snapshot file is too short to contain a CRC trailer");
            },
            SnapshotError::Incompatible => {
                s.append("snapshot is from a different VMM (sysreg or GIC blob shape mismatch)");
            },
            SnapshotError::AtomicCommitFailed(_) => {
                s.append("atomic commit (rename) failed: ");
                s.append(detail);
            },
            SnapshotError::AtomicCommitCrossFs { dest, temp_dir } => {
                s.append(
                    "snapshot temp-file path is on a different filesystem from the destination (dest=",
                );
                s.append(dest.as_str());
                s.append(", temp_dir=");
                s.append(temp_dir.as_str());
                s.append("); rename(2) cannot be atomic across mounts");
            },
            SnapshotError::InvalidPath(why) => {
                s.append("invalid snapshot path: ");
                s.append(why.as_str());
            },
            SnapshotError::Bitcode(why) => {
                s.append("snapshot encoding error: ");
                s.append(why.as_str());
            },
            SnapshotError::SizeLimitExceeded { limit } => {
                s.append("snapshot exceeds ");
                push_decimal(&mut s, *limit as u64);
                s.append(" byte deserialization limit");
            },
            SnapshotError::MemoryIo(_) => {
                s.append("memory file I/O error: ");
                s.append(detail);
            },
            SnapshotError::Io(_) => {
                s.append("snapshot I/O error: ");
                s.append(detail);
            },
        }
        assert(s@ =~= message_of(*self, detail@));
        s
    }

    /// The message that the error shows to a client.
    pub fn wire_message(&self) -> (s: String)
        ensures
            exists|detail: Seq<char>| s@ == message_of(*self, detail),
    {
        let detail: String = match self {
            SnapshotError::AtomicCommitFailed(e) => io_error_text(e),
            SnapshotError::MemoryIo(e) => io_error_text(e),
            SnapshotError::Io(e) => io_error_text(e),
            _ => String::new(),
        };
        self.message_with(detail.as_str())
    }
}

impl From<std::io::Error> for SnapshotError {
    fn from(err: std::io::Error) -> (r: Self) {
        SnapshotError::Io(err)
    }
}

impl vstd::std_specs::convert::FromSpecImpl<std::io::Error> for SnapshotError {
    open spec fn obeys_from_spec() -> bool {
        true
    }

    open spec fn from_spec(err: std::io::Error) -> Self {
        SnapshotError::Io(err)
    }
}

} // verus!
