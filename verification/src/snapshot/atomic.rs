//! Writing a file so that it is either the old one or the whole new one: the new file is
//! staged beside the destination and then renamed onto it.

use vstd::prelude::*;
use vstd::string::*;
use vstd::utf8::*;

use crate::snapshot::error::SnapshotError;
use crate::wire::push_bytes;

verus! {

/// The path of the staged file for a destination: the destination and `.tmp`.
pub open spec fn temp_path(dest: Seq<u8>) -> Seq<u8> {
    dest + encode_utf8(".tmp"@)
}

/// Derives the path of the staged file: the destination and the suffix, so that both are
/// in one directory.
pub fn derive_temp_path(dest: &[u8]) -> (path: Vec<u8>)
    ensures
        path@ == temp_path(dest@),
{
    let mut path: Vec<u8> = Vec::new();
    push_bytes(&mut path, dest);
    push_bytes(&mut path, ".tmp".as_bytes());
    assert(path@ =~= temp_path(dest@));
    path
}

/// Refuses to stage a file on another filesystem than the destination. The arguments are
/// the devices that hold the two directories, and the quoted paths for the message.
pub fn check_same_filesystem(dest_dev: u64, temp_dev: u64, dest: &str, temp_dir: &str) -> (r: Result<
    (),
    SnapshotError,
>)
    ensures
        match r {
            Ok(()) => dest_dev == temp_dev,
            Err(SnapshotError::AtomicCommitCrossFs { dest: d, temp_dir: t }) => dest_dev
                != temp_dev && d@ == dest@ && t@ == temp_dir@,
            Err(_) => false,
        },
{
    if dest_dev != temp_dev {
        return Err(
            SnapshotError::AtomicCommitCrossFs {
                dest: String::from_str(dest),
                temp_dir: String::from_str(temp_dir),
            },
        );
    }
    Ok(())
}

/// Remembers a path that is to be removed unless it is disarmed.
#[derive(Debug)]
pub struct UnlinkOnDrop {
    path: Option<Vec<u8>>,
}

impl UnlinkOnDrop {
    /// The path that is to be removed, if any.
    pub closed spec fn armed(&self) -> Option<Seq<u8>> {
        match self.path {
            Some(p) => Some(p@),
            None => None,
        }
    }

    /// Remembers `path`.
    pub fn new(path: Vec<u8>) -> (g: Self)
        ensures
            g.armed() == Some(path@),
    {
        UnlinkOnDrop { path: Some(path) }
    }

    /// Forgets the path.
    pub fn disarm(&mut self)
        ensures
            final(self).armed() is None,
    {
        self.path = None;
    }

    /// The path that is to be removed, if any.
    pub fn path(&self) -> (p: Option<&Vec<u8>>)
        ensures
            match p {
                Some(v) => self.armed() == Some(v@),
                None => self.armed() is None,
            },
    {
        match &self.path {
            Some(p) => Some(p),
            None => None,
        }
    }
}

/// How far committing a staged file got.
#[derive(Debug)]
pub enum CommitStep {
    /// Flushing or syncing the file failed.
    SyncFailed(std::io::Error),
    /// Renaming it onto the destination failed.
    RenameFailed(std::io::Error),
    /// The destination is the new file.
    Renamed,
}

/// Ends a commit. The staged file is left to be removed unless it was renamed; a failed
/// rename is told apart from the rest.
pub fn finish_commit(step: CommitStep, guard: &mut UnlinkOnDrop) -> (r: Result<(), SnapshotError>)
    ensures
        match step {
            CommitStep::SyncFailed(e) => r == Err::<(), SnapshotError>(SnapshotError::Io(e))
                && final(guard).armed() == old(guard).armed(),
            CommitStep::RenameFailed(e) => r == Err::<(), SnapshotError>(
                SnapshotError::AtomicCommitFailed(e),
            ) && final(guard).armed() == old(guard).armed(),
            CommitStep::Renamed => r is Ok && final(guard).armed() is None,
        },
{
    match step {
        CommitStep::SyncFailed(e) => Err(SnapshotError::Io(e)),
        CommitStep::RenameFailed(e) => Err(SnapshotError::AtomicCommitFailed(e)),
        CommitStep::Renamed => {
            guard.disarm();
            Ok(())
        },
    }
}

/// The staged file lies beside its destination: its path is that of the destination and
/// four more bytes, `.tmp`.
pub proof fn staged_beside_the_destination(dest: Seq<u8>)
    ensures
        temp_path(dest) == dest + seq![46u8, 116, 109, 112],
{
    reveal_strlit(".tmp");
    let s = ".tmp"@;
    assert(s =~= seq!['.', 't', 'm', 'p']);
    is_ascii_chars_encode_utf8(s);
    assert(encode_utf8(s) =~= seq![46u8, 116, 109, 112]);
}

} // verus!
