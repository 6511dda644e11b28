//! Taking a snapshot: what is checked first and what is written.

use vstd::prelude::*;
use vstd::string::*;

use crate::snapshot::dirty::{self, DirtyBitmap};
use crate::snapshot::envelope::{self, Snapshot};
use crate::snapshot::error::SnapshotError;
use crate::snapshot::memory::{self, MemoryWriter, PageReader, PageWrite};
use crate::snapshot::state::{self, MicrovmState};

verus! {

/// The kind of a snapshot.
#[derive(Clone, Copy, Debug, PartialEq, Eq, Structural)]
pub enum SnapshotKind {
    /// All of memory.
    Full,
    /// The pages that were written since the last one.
    Diff,
}

/// What a snapshot is taken of, and where it goes.
pub struct SaveRequest<'a, R: PageReader> {
    pub state_path: Vec<u8>,
    pub memory_path: Vec<u8>,
    pub kind: SnapshotKind,
    pub state: MicrovmState,
    pub memory: &'a R,
    pub ram_size: u64,
    pub memory_page_size: u64,
    /// The dirty pages; needed for a diff snapshot.
    pub dirty: Option<&'a DirtyBitmap>,
}

/// What was written.
#[derive(Clone, Copy, Debug, PartialEq, Eq, Structural)]
pub struct SaveReport {
    pub kind: SnapshotKind,
    /// Pages of a diff snapshot; zero for a full one.
    pub pages_written: u64,
}

/// What is to be written: the envelope of the state file, and the ranges of the memory
/// file. The memory file stands for all of memory, whatever is written of it.
pub struct SavePlan<'a, R: PageReader> {
    pub state_path: Vec<u8>,
    pub memory_path: Vec<u8>,
    pub envelope: Snapshot<MicrovmState>,
    pub memory: &'a R,
    pub ram_size: u64,
    pub writes: Vec<PageWrite>,
    pub report: SaveReport,
}

/// Why a request is refused before anything is looked at, if it is.
pub open spec fn request_fault(kind: SnapshotKind, has_bitmap: bool, tracking: bool) -> Option<
    Seq<char>,
> {
    if kind == SnapshotKind::Diff && !has_bitmap {
        Some("Diff snapshot requires track_dirty_pages=true and a dirty bitmap"@)
    } else if kind == SnapshotKind::Diff && !tracking {
        Some("Diff snapshot requested but vm_info.track_dirty_pages is false"@)
    } else {
        None
    }
}

/// Refuses a diff snapshot without a bitmap or of a microVM whose pages were not watched.
pub fn check_request(kind: SnapshotKind, has_bitmap: bool, tracking: bool) -> (r: Result<
    (),
    SnapshotError,
>)
    ensures
        match r {
            Ok(()) => request_fault(kind, has_bitmap, tracking) is None,
            Err(SnapshotError::InvalidPath(why)) => request_fault(kind, has_bitmap, tracking)
                == Some(why@),
            Err(_) => false,
        },
{
    if kind == SnapshotKind::Diff && !has_bitmap {
        return Err(
            SnapshotError::InvalidPath(
                String::from_str("Diff snapshot requires track_dirty_pages=true and a dirty bitmap"),
            ),
        );
    }
    if kind == SnapshotKind::Diff && !tracking {
        return Err(
            SnapshotError::InvalidPath(
                String::from_str("Diff snapshot requested but vm_info.track_dirty_pages is false"),
            ),
        );
    }
    Ok(())
}

/// Checks a request and says what is to be written for it.
pub fn save<'a, R: PageReader>(req: SaveRequest<'a, R>) -> (r: Result<
    SavePlan<'a, R>,
    SnapshotError,
>)
    requires
        req.kind == SnapshotKind::Full && req.ram_size > 0 && state::is_compatible(req.state)
            ==> req.memory_page_size > 0,
        req.dirty matches Some(b) ==> b.wf(),
    ensures
        match r {
            Ok(plan) => {
                &&& request_fault(req.kind, req.dirty is Some, req.state.vm_info.track_dirty_pages)
                    is None
                &&& state::is_compatible(req.state)
                &&& plan.state_path == req.state_path
                &&& plan.memory_path == req.memory_path
                &&& plan.memory == req.memory
                &&& plan.ram_size == req.ram_size
                &&& plan.envelope.data == req.state
                &&& plan.envelope.header.magic == envelope::SNAPSHOT_MAGIC_AARCH64
                &&& plan.envelope.header.version@ == envelope::current_version()
                &&& plan.report.kind == req.kind
                &&& match req.kind {
                    SnapshotKind::Full => plan.report.pages_written == 0 && plan.writes@
                        == memory::full_plan(req.ram_size as int, req.memory_page_size as int),
                    SnapshotKind::Diff => {
                        &&& memory::diff_fault(req.dirty->0, req.ram_size, req.memory_page_size)
                            is None
                        &&& plan.writes@ == memory::diff_plan(
                            req.dirty->0,
                            req.ram_size as int,
                            req.memory_page_size as int,
                            (req.dirty->0.page() / req.memory_page_size) as int,
                            dirty::page_count_of(
                                req.ram_size as int,
                                req.memory_page_size as int,
                            ),
                        )
                        &&& plan.report.pages_written == plan.writes@.len()
                    },
                }
            },
            Err(SnapshotError::InvalidPath(why)) => {
                ||| request_fault(req.kind, req.dirty is Some, req.state.vm_info.track_dirty_pages)
                    == Some(why@)
                ||| {
                    &&& request_fault(
                        req.kind,
                        req.dirty is Some,
                        req.state.vm_info.track_dirty_pages,
                    ) is None
                    &&& state::is_compatible(req.state)
                    &&& req.kind == SnapshotKind::Diff
                    &&& memory::diff_fault(req.dirty->0, req.ram_size, req.memory_page_size)
                        == Some(why@)
                }
            },
            Err(SnapshotError::Incompatible) => request_fault(
                req.kind,
                req.dirty is Some,
                req.state.vm_info.track_dirty_pages,
            ) is None && !state::is_compatible(req.state),
            Err(_) => false,
        },
{
    match check_request(req.kind, req.dirty.is_some(), req.state.vm_info.track_dirty_pages) {
        Ok(()) => {},
        Err(e) => {
            return Err(e);
        },
    }
    match req.state.verify_compatible() {
        Ok(()) => {},
        Err(e) => {
            return Err(e);
        },
    }
    let writer = MemoryWriter::new(req.ram_size, req.memory_page_size);
    let (writes, pages_written) = match req.kind {
        SnapshotKind::Full => (writer.write_full(), 0u64),
        SnapshotKind::Diff => match req.dirty {
            Some(bitmap) => match writer.write_diff(bitmap) {
                Ok(w) => {
                    let n: u64 = w.len() as u64;
                    (w, n)
                },
                Err(e) => {
                    return Err(e);
                },
            },
            None => (Vec::new(), 0u64),
        },
    };
    Ok(
        SavePlan {
            state_path: req.state_path,
            memory_path: req.memory_path,
            envelope: Snapshot::new(req.state),
            memory: req.memory,
            ram_size: req.ram_size,
            writes,
            report: SaveReport { kind: req.kind, pages_written },
        },
    )
}

/// A full snapshot can always be asked for; one of the changes only with a bitmap and of a
/// microVM whose pages were watched, and what is missing is said.
pub proof fn snapshots_that_can_be_asked_for(kind: SnapshotKind, has_bitmap: bool, tracking: bool)
    ensures
        request_fault(kind, has_bitmap, tracking) is None <==> kind == SnapshotKind::Full || (
        has_bitmap && tracking),
        kind == SnapshotKind::Diff && !has_bitmap ==> request_fault(kind, has_bitmap, tracking)
            == Some("Diff snapshot requires track_dirty_pages=true and a dirty bitmap"@),
        kind == SnapshotKind::Diff && has_bitmap && !tracking ==> request_fault(
            kind,
            has_bitmap,
            tracking,
        ) == Some("Diff snapshot requested but vm_info.track_dirty_pages is false"@),
{
}

} // verus!
