//! The envelope of a state file: a header and the state, followed by a checksum of
//! their encoding in eight little-endian bytes.

use vstd::prelude::*;

use crate::snapshot::error::SnapshotError;
use crate::snapshot::version::{self, Version};
use crate::wire::{self, push_bytes, to_le64};

verus! {

/// Magic value of state files for aarch64.
pub const SNAPSHOT_MAGIC_AARCH64: u64 = 0x0710_1984_AAAA_0000;

/// Major number of the version that this build writes; only this one is read.
pub const SNAPSHOT_VERSION_MAJOR: u64 = 5;

/// Minor number of the version that this build writes, and the largest it reads.
pub const SNAPSHOT_VERSION_MINOR: u64 = 0;

/// Patch number of the version that this build writes.
pub const SNAPSHOT_VERSION_PATCH: u64 = 0;

/// Largest encoded state that is decoded.
pub const SNAPSHOT_DESERIALIZATION_BYTES_LIMIT: usize = 10_000_000;

/// Length of the checksum trailer.
pub const CRC_LEN: usize = 8;

/// The value that `crc64::crc64` computes over bytes, starting from a checksum.
pub uninterp spec fn crc64_of(crc: u64, data: Seq<u8>) -> u64;

/// `crc64::crc64` is a function of the start value and the bytes. It runs over the
/// bytes from left to right, so that continuing from its result is the same as
/// running over everything at once. No bytes leave the start value as it is. A run
/// over eight bytes ends in zero exactly when they are the start value in
/// little-endian order.
#[verifier::external_body]
fn crc64_run(crc: u64, data: &[u8]) -> (r: u64)
    ensures
        r == crc64_of(crc, data@),
        data@.len() == 0 ==> r == crc,
        forall|t: Seq<u8>| #[trigger] crc64_of(crc, data@ + t) == crc64_of(r, t),
        forall|t: Seq<u8>|
            t.len() == CRC_LEN ==> (#[trigger] crc64_of(r, t) == 0 <==> t == wire::le64_bytes(r)),
{
    crc64::crc64(crc, data)
}

/// Magic value of this build.
pub fn arch_magic() -> (m: u64)
    ensures
        m == SNAPSHOT_MAGIC_AARCH64,
{
    SNAPSHOT_MAGIC_AARCH64
}

/// The version that this build writes.
pub open spec fn current_version() -> version::VersionView {
    version::plain_version(SNAPSHOT_VERSION_MAJOR, SNAPSHOT_VERSION_MINOR, SNAPSHOT_VERSION_PATCH)
}

/// The version that this build writes.
pub fn snapshot_version() -> (v: Version)
    ensures
        v@ == current_version(),
{
    Version::new(SNAPSHOT_VERSION_MAJOR, SNAPSHOT_VERSION_MINOR, SNAPSHOT_VERSION_PATCH)
}

/// The header inside the envelope.
#[derive(Clone, Debug, PartialEq, Eq)]
pub struct SnapshotHdr {
    pub magic: u64,
    pub version: Version,
}

/// A header and the state that it describes.
#[derive(Clone, Debug, PartialEq)]
pub struct Snapshot<Data> {
    pub header: SnapshotHdr,
    pub data: Data,
}

/// Why a state file is refused before it is decoded.
pub enum FrameFault {
    TooLarge,
    TooShort,
    BadChecksum,
}

/// What the bytes of a state file hold: the encoded envelope, if the file is not too
/// large, long enough for the trailer, and its checksum is right.
pub open spec fn frame_body(buf: Seq<u8>) -> Result<Seq<u8>, FrameFault> {
    if buf.len() > SNAPSHOT_DESERIALIZATION_BYTES_LIMIT {
        Err(FrameFault::TooLarge)
    } else if buf.len() < CRC_LEN {
        Err(FrameFault::TooShort)
    } else if crc64_of(0, buf) != 0 {
        Err(FrameFault::BadChecksum)
    } else {
        Ok(buf.subrange(0, buf.len() - CRC_LEN))
    }
}

/// Whether a header can be loaded by this build: its magic is ours, its major version
/// equals ours and its minor version is not newer.
pub open spec fn header_loadable(magic: u64, v: version::VersionView) -> bool {
    magic == SNAPSHOT_MAGIC_AARCH64 && v.major == SNAPSHOT_VERSION_MAJOR && v.minor
        <= SNAPSHOT_VERSION_MINOR
}

impl<Data> Snapshot<Data> {
    /// Puts `data` under the header of this build.
    pub fn new(data: Data) -> (s: Self)
        ensures
            s.data == data,
            s.header.magic == SNAPSHOT_MAGIC_AARCH64,
            s.header.magic == 0x0710_1984_AAAA_0000,
            s.header.version@ == current_version(),
    {
        Snapshot {
            header: SnapshotHdr { magic: arch_magic(), version: snapshot_version() },
            data,
        }
    }

    /// The version in the header.
    pub fn version(&self) -> (v: &Version)
        ensures
            v@ == self.header.version@,
    {
        &self.header.version
    }

    /// The bytes of a state file whose envelope encodes to `encoded`: the encoding and
    /// its checksum. Reading them back gives the encoding, and no other trailer than
    /// this one passes.
    pub fn save(encoded: &[u8]) -> (file: Vec<u8>)
        ensures
            file@ == encoded@ + wire::le64_bytes(crc64_of(0, encoded@)),
            encoded@.len() + CRC_LEN <= SNAPSHOT_DESERIALIZATION_BYTES_LIMIT ==> frame_body(file@)
                == Ok::<Seq<u8>, FrameFault>(encoded@),
            forall|t: Seq<u8>|
                t.len() == CRC_LEN && t != wire::le64_bytes(crc64_of(0, encoded@))
                    ==> frame_body(#[trigger] (encoded@ + t)) is Err,
    {
        let mut writer: Crc64Writer<Vec<u8>> = Crc64Writer::new(Vec::new());
        push_bytes(writer.get_mut(), encoded);
        writer.record(encoded, encoded.len());
        let crc: u64 = writer.checksum();
        let mut file: Vec<u8> = writer.into_inner();
        push_bytes(&mut file, to_le64(crc).as_slice());
        assert(encoded@.subrange(0, encoded@.len() as int) =~= encoded@);
        assert(Seq::<u8>::empty() + encoded@ =~= encoded@);
        proof {
            let trailer = wire::le64_bytes(crc);
            assert(file@ =~= encoded@ + trailer);
            assert(crc64_of(0, encoded@ + trailer) == 0);
            assert(file@.subrange(0, file@.len() - CRC_LEN) =~= encoded@);
        }
        file
    }

    /// Checks the size and the checksum of a state file and gives the encoded
    /// envelope in it.
    pub fn load_from_slice(buf: &[u8]) -> (r: Result<&[u8], SnapshotError>)
        ensures
            match r {
                Ok(body) => frame_body(buf@) == Ok::<Seq<u8>, FrameFault>(body@),
                Err(SnapshotError::SizeLimitExceeded { limit }) => frame_body(buf@) == Err::<
                    Seq<u8>,
                    FrameFault,
                >(FrameFault::TooLarge) && limit == SNAPSHOT_DESERIALIZATION_BYTES_LIMIT,
                Err(SnapshotError::TooShort) => frame_body(buf@) == Err::<Seq<u8>, FrameFault>(
                    FrameFault::TooShort,
                ),
                Err(SnapshotError::CrcMismatch) => frame_body(buf@) == Err::<Seq<u8>, FrameFault>(
                    FrameFault::BadChecksum,
                ),
                Err(_) => false,
            },
    {
        if buf.len() > SNAPSHOT_DESERIALIZATION_BYTES_LIMIT {
            return Err(
                SnapshotError::SizeLimitExceeded { limit: SNAPSHOT_DESERIALIZATION_BYTES_LIMIT },
            );
        }
        if buf.len() < CRC_LEN {
            return Err(SnapshotError::TooShort);
        }
        if crc64_run(0, buf) != 0 {
            return Err(SnapshotError::CrcMismatch);
        }
        Ok(vstd::slice::slice_subrange(buf, 0, buf.len() - CRC_LEN))
    }

    /// Judges an envelope that was decoded (or could not be, with the decoder's text)
    /// from `encoded_len` bytes: refuses an encoding that is too large, one that does
    /// not decode, and a header that this build cannot load.
    pub fn load_without_crc_check(encoded_len: usize, decoded: Result<Self, String>) -> (r: Result<
        Self,
        SnapshotError,
    >)
        ensures
            match r {
                Ok(s) => decoded == Ok::<Self, String>(s) && encoded_len
                    <= SNAPSHOT_DESERIALIZATION_BYTES_LIMIT && header_loadable(
                    s.header.magic,
                    s.header.version@,
                ),
                Err(SnapshotError::SizeLimitExceeded { limit }) => encoded_len
                    > SNAPSHOT_DESERIALIZATION_BYTES_LIMIT && limit
                    == SNAPSHOT_DESERIALIZATION_BYTES_LIMIT,
                Err(SnapshotError::Bitcode(why)) => encoded_len
                    <= SNAPSHOT_DESERIALIZATION_BYTES_LIMIT && decoded == Err::<Self, String>(why),
                Err(SnapshotError::MagicMismatch { found, expected }) => encoded_len
                    <= SNAPSHOT_DESERIALIZATION_BYTES_LIMIT && decoded is Ok && found
                    == decoded->Ok_0.header.magic && expected == SNAPSHOT_MAGIC_AARCH64 && found
                    != expected,
                Err(SnapshotError::VersionMismatch { found, expected }) => encoded_len
                    <= SNAPSHOT_DESERIALIZATION_BYTES_LIMIT && decoded is Ok
                    && decoded->Ok_0.header.magic == SNAPSHOT_MAGIC_AARCH64 && found@
                    == decoded->Ok_0.header.version@ && expected@ == current_version()
                    && !header_loadable(SNAPSHOT_MAGIC_AARCH64, found@),
                Err(_) => false,
            },
    {
        if encoded_len > SNAPSHOT_DESERIALIZATION_BYTES_LIMIT {
            return Err(
                SnapshotError::SizeLimitExceeded { limit: SNAPSHOT_DESERIALIZATION_BYTES_LIMIT },
            );
        }
        match decoded {
            Err(why) => Err(SnapshotError::Bitcode(why)),
            Ok(snapshot) => {
                if snapshot.header.magic != arch_magic() {
                    return Err(
                        SnapshotError::MagicMismatch {
                            found: snapshot.header.magic,
                            expected: arch_magic(),
                        },
                    );
                }
                if snapshot.header.version.major != SNAPSHOT_VERSION_MAJOR
                    || snapshot.header.version.minor > SNAPSHOT_VERSION_MINOR {
                    return Err(
                        SnapshotError::VersionMismatch {
                            found: snapshot.header.version.duplicate(),
                            expected: snapshot_version(),
                        },
                    );
                }
                Ok(snapshot)
            },
        }
    }
}

/// Judges how many bytes a bounded read of at most `limit + 1` bytes gave: a file of
/// exactly `limit` bytes passes, a longer one does not.
pub fn check_read_size(bytes: usize, limit: usize) -> (r: Result<(), SnapshotError>)
    ensures
        match r {
            Ok(()) => bytes <= limit,
            Err(SnapshotError::SizeLimitExceeded { limit: l }) => bytes > limit && l == limit,
            Err(_) => false,
        },
{
    if bytes > limit {
        Err(SnapshotError::SizeLimitExceeded { limit })
    } else {
        Ok(())
    }
}

/// How many bytes to read at most to tell a file of `limit` bytes from a longer one.
pub fn read_cap(limit: usize) -> (n: u64)
    ensures
        n == if limit < usize::MAX {
            limit + 1
        } else {
            usize::MAX as int
        },
{
    limit.saturating_add(1) as u64
}

/// `crc` is the checksum of `data`: running on from it is running on from `data`, and
/// only its own bytes bring it to zero.
pub open spec fn is_checksum_of(crc: u64, data: Seq<u8>) -> bool {
    &&& crc == crc64_of(0, data)
    &&& forall|t: Seq<u8>| #[trigger] crc64_of(0, data + t) == crc64_of(crc, t)
    &&& forall|t: Seq<u8>|
        t.len() == CRC_LEN ==> (#[trigger] crc64_of(crc, t) == 0 <==> t == wire::le64_bytes(crc))
}

/// A writer together with the running checksum of what it took.
#[derive(Debug)]
pub struct Crc64Writer<W> {
    writer: W,
    crc: u64,
}

impl<W> Crc64Writer<W> {
    /// The running checksum.
    pub closed spec fn sum(&self) -> u64 {
        self.crc
    }

    /// The underlying writer.
    pub closed spec fn inner(&self) -> W {
        self.writer
    }

    /// Wraps `writer`; nothing has been written yet.
    pub fn new(writer: W) -> (w: Self)
        ensures
            w.inner() == writer,
            is_checksum_of(w.sum(), Seq::empty()),
            w.sum() == 0,
    {
        let empty: [u8; 0] = [];
        let crc: u64 = crc64_run(0, empty.as_slice());
        assert(empty@ =~= Seq::<u8>::empty());
        Crc64Writer { writer, crc }
    }

    /// Takes note that the underlying writer took the first `written` bytes of `buf`.
    pub fn record(&mut self, buf: &[u8], written: usize)
        requires
            written <= buf@.len(),
        ensures
            final(self).inner() == old(self).inner(),
            final(self).sum() == crc64_of(old(self).sum(), buf@.subrange(0, written as int)),
            forall|data: Seq<u8>| #[trigger]
                is_checksum_of(old(self).sum(), data) ==> is_checksum_of(
                    final(self).sum(),
                    data + buf@.subrange(0, written as int),
                ),
    {
        let taken: &[u8] = vstd::slice::slice_subrange(buf, 0, written);
        self.crc = crc64_run(self.crc, taken);
        assert forall|data: Seq<u8>| #[trigger]
            is_checksum_of(old(self).sum(), data) implies is_checksum_of(
            self.sum(),
            data + taken@,
        ) by {
            assert forall|t: Seq<u8>| #[trigger]
                crc64_of(0, (data + taken@) + t) == crc64_of(self.crc, t) by {
                assert((data + taken@) + t =~= data + (taken@ + t));
            }
        }
    }

    /// The checksum of what the writer took so far.
    pub fn checksum(&self) -> (crc: u64)
        ensures
            crc == self.sum(),
    {
        self.crc
    }

    /// The underlying writer.
    pub fn get_mut(&mut self) -> (writer: &mut W)
        ensures
            *writer == old(self).inner(),
            final(self).inner() == *final(writer),
            final(self).sum() == old(self).sum(),
    {
        &mut self.writer
    }

    /// Gives the underlying writer back.
    pub fn into_inner(self) -> (writer: W)
        ensures
            writer == self.inner(),
    {
        self.writer
    }
}

/// Which bytes are a state file: eight to ten million of them whose checksum, trailer
/// included, is zero. The encoded envelope is all but the last eight.
pub proof fn state_files_are_judged(buf: Seq<u8>)
    ensures
        buf.len() > 10_000_000 ==> frame_body(buf) == Err::<Seq<u8>, FrameFault>(
            FrameFault::TooLarge,
        ),
        buf.len() < 8 ==> frame_body(buf) == Err::<Seq<u8>, FrameFault>(FrameFault::TooShort),
        8 <= buf.len() <= 10_000_000 && crc64_of(0, buf) != 0 ==> frame_body(buf) == Err::<
            Seq<u8>,
            FrameFault,
        >(FrameFault::BadChecksum),
        8 <= buf.len() <= 10_000_000 && crc64_of(0, buf) == 0 ==> (frame_body(buf) matches Ok(body)
            && body.len() == buf.len() - 8 && forall|i: int|
            0 <= i < body.len() ==> #[trigger] body[i] == buf[i]),
{
}

/// Which headers load: those with the magic of this architecture, major version five and
/// minor version zero, whatever the patch number and the rest of the version. This build
/// writes version 5.0.0, which it loads.
pub proof fn versions_that_load(magic: u64, v: version::VersionView)
    ensures
        header_loadable(magic, v) <==> magic == 0x0710_1984_AAAA_0000 && v.major == 5 && v.minor
            == 0,
        current_version().major == 5 && current_version().minor == 0 && current_version().patch
            == 0,
        header_loadable(0x0710_1984_AAAA_0000, current_version()),
{
}

} // verus!
