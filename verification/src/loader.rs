//! Loading of aarch64 kernel images: telling their format, unpacking them within a limit,
//! and reading their boot header.

use std::io::Read;
use vstd::prelude::*;
use vstd::slice::slice_to_vec;
use vstd::string::*;

use crate::text::{self, push_decimal, push_hex_prefixed, utf8_text};
use crate::wire::{self, read_le64};

verus! {

/// Where guest memory begins.
pub const DRAM_BASE: u64 = 0x8000_0000;

/// The start of guest memory that is kept free below the kernel.
pub const KERNEL_LOAD_OFFSET: u64 = 0x20_0000;

/// Where the magic of a kernel image stands.
pub const AARCH64_MAGIC_OFFSET: usize = 0x38;

/// The shortest image: its boot header.
pub const MIN_IMAGE_SIZE: usize = 64;

/// Most bytes of a packed image, unless set otherwise: 1 GiB.
pub const DEFAULT_MAX_COMPRESSED: u64 = 0x4000_0000;

/// Most bytes of an unpacked image, unless set otherwise: 4 GiB.
pub const DEFAULT_MAX_DECOMPRESSED: u64 = 0x1_0000_0000;

/// Longest path of an image, in bytes.
pub const PATH_MAX: usize = 1024;

/// Bytes that are unpacked at a time.
pub const CHUNK_SIZE: usize = 65536;

/// The magic of an image with a PE header: `MZ`.
pub open spec fn magic_pe() -> Seq<u8> {
    seq![0x4Du8, 0x5A]
}

/// The magic of gzip.
pub open spec fn magic_gz() -> Seq<u8> {
    seq![0x1Fu8, 0x8B]
}

/// The magic of zstd.
pub open spec fn magic_zst() -> Seq<u8> {
    seq![0x28u8, 0xB5, 0x2F, 0xFD]
}

/// The magic of a kernel image: `ARM` and a byte of 0x64.
pub open spec fn magic_aarch64() -> Seq<u8> {
    seq![0x41u8, 0x52, 0x4D, 0x64]
}

/// What can go wrong while an image is loaded.
#[derive(Debug)]
pub enum LoaderError {
    /// Reading or unpacking it failed.
    Io(std::io::Error),
    /// It is shorter than a boot header.
    ImageTooSmall { size: usize },
    /// Its format is not known.
    UnknownFormat,
    /// It lacks the magic of a kernel image.
    MissingAarch64Magic,
    /// The packed image is larger than allowed.
    CompressedTooLarge { size: u64, cap: u64 },
    /// The unpacked image is larger than allowed; `size` bytes of it had been seen.
    DecompressedTooLarge { size: u64, cap: u64 },
    /// It does not fit into guest memory.
    DoesNotFitInRam { load_addr: u64, image_size: u64, ram_end: u64 },
    /// Its offset from the start of memory is no address.
    InvalidTextOffset { text_offset: u64 },
    /// Its path was refused.
    PathRejected(&'static str),
}

/// The message of an error.
pub open spec fn loader_message(e: LoaderError) -> Seq<char> {
    match e {
        LoaderError::Io(_) => "kernel image I/O error"@,
        LoaderError::ImageTooSmall { size } => "kernel image is too small ("@ + text::decimal(
            size as nat,
        ) + " bytes; need ≥ 64)"@,
        LoaderError::UnknownFormat => "unknown kernel image format (no recognised magic)"@,
        LoaderError::MissingAarch64Magic => "missing aarch64 'ARM\\x64' magic at offset 0x38"@,
        LoaderError::CompressedTooLarge { size, cap } => "compressed kernel image is too large ("@
            + text::decimal(size as nat) + " bytes; cap "@ + text::decimal(cap as nat) + ")"@,
        LoaderError::DecompressedTooLarge { size, cap } => {
            "decompressed kernel image is too large ("@ + text::decimal(size as nat)
                + " bytes; cap "@ + text::decimal(cap as nat) + ")"@
        },
        LoaderError::DoesNotFitInRam { load_addr, image_size, ram_end } => "kernel image (size "@
            + text::decimal(image_size as nat) + ") would not fit in guest RAM (start "@
            + text::hex_prefixed(load_addr as nat) + ", ram_end "@ + text::hex_prefixed(
            ram_end as nat,
        ) + ")"@,
        LoaderError::InvalidTextOffset { text_offset } => "invalid text_offset "@
            + text::hex_prefixed(text_offset as nat) + ": would overflow DRAM_BASE"@,
        LoaderError::PathRejected(why) => "kernel image path rejected at boundary: "@ + why@,
    }
}

fn sized_text(start: &str, size: u64, middle: &str, cap: u64, end: &str) -> (s: String)
    ensures
        s@ == start@ + text::decimal(size as nat) + middle@ + text::decimal(cap as nat) + end@,
{
    let mut s = String::from_str(start);
    push_decimal(&mut s, size);
    s.append(middle);
    push_decimal(&mut s, cap);
    s.append(end);
    s
}

impl LoaderError {
    /// The message of the error.
    pub fn message(&self) -> (s: String)
        ensures
            s@ == loader_message(*self),
    {
        match self {
            LoaderError::Io(_) => String::from_str("kernel image I/O error"),
            LoaderError::ImageTooSmall { size } => {
                let mut s = String::from_str("kernel image is too small (");
                push_decimal(&mut s, *size as u64);
                s.append(" bytes; need ≥ 64)");
                s
            },
            LoaderError::UnknownFormat => String::from_str(
                "unknown kernel image format (no recognised magic)",
            ),
            LoaderError::MissingAarch64Magic => String::from_str(
                "missing aarch64 'ARM\\x64' magic at offset 0x38",
            ),
            LoaderError::CompressedTooLarge { size, cap } => sized_text(
                "compressed kernel image is too large (",
                *size,
                " bytes; cap ",
                *cap,
                ")",
            ),
            LoaderError::DecompressedTooLarge { size, cap } => sized_text(
                "decompressed kernel image is too large (",
                *size,
                " bytes; cap ",
                *cap,
                ")",
            ),
            LoaderError::DoesNotFitInRam { load_addr, image_size, ram_end } => {
                let mut s = String::from_str("kernel image (size ");
                push_decimal(&mut s, *image_size);
                s.append(") would not fit in guest RAM (start ");
                push_hex_prefixed(&mut s, *load_addr);
                s.append(", ram_end ");
                push_hex_prefixed(&mut s, *ram_end);
                s.append(")");
                s
            },
            LoaderError::InvalidTextOffset { text_offset } => {
                let mut s = String::from_str("invalid text_offset ");
                push_hex_prefixed(&mut s, *text_offset);
                s.append(": would overflow DRAM_BASE");
                s
            },
            LoaderError::PathRejected(why) => {
                let mut s = String::from_str("kernel image path rejected at boundary: ");
                s.append(why);
                s
            },
        }
    }
}

/// Why a path is refused, if it is.
pub open spec fn path_fault(path: Seq<u8>) -> Option<Seq<char>> {
    if !vstd::utf8::valid_utf8(path) {
        Some("path is not valid UTF-8"@)
    } else if path.len() == 0 {
        Some("path must not be empty"@)
    } else if path.len() > PATH_MAX {
        Some("path exceeds PATH_MAX bytes"@)
    } else if path.contains(0u8) {
        Some("path contains a NUL byte"@)
    } else {
        None
    }
}

/// Checks a path before it is opened.
pub fn enforce_path_bounds(path: &[u8]) -> (r: Result<(), LoaderError>)
    ensures
        match r {
            Ok(()) => path_fault(path@) is None,
            Err(LoaderError::PathRejected(why)) => path_fault(path@) == Some(why@),
            Err(_) => false,
        },
{
    if utf8_text(path).is_none() {
        return Err(LoaderError::PathRejected("path is not valid UTF-8"));
    }
    if path.len() == 0 {
        return Err(LoaderError::PathRejected("path must not be empty"));
    }
    if path.len() > PATH_MAX {
        return Err(LoaderError::PathRejected("path exceeds PATH_MAX bytes"));
    }
    let mut i: usize = 0;
    while i < path.len()
        invariant
            i <= path@.len(),
            forall|k: int| 0 <= k < i ==> #[trigger] path@[k] != 0,
            vstd::utf8::valid_utf8(path@),
            0 < path@.len() <= PATH_MAX,
        decreases path@.len() - i,
    {
        if path[i] == 0 {
            assert(path@.contains(path@[i as int]));
            return Err(LoaderError::PathRejected("path contains a NUL byte"));
        }
        i = i + 1;
    }
    Ok(())
}

/// The format of an image.
#[derive(Clone, Copy, Debug, PartialEq, Eq, Hash, Structural)]
pub enum ImageFormat {
    /// A plain kernel image.
    Aarch64Image,
    /// A kernel image with a PE header.
    Pe,
    /// Packed with gzip.
    Gzip,
    /// Packed with zstd.
    Zstd,
}

/// How large an image may be.
#[derive(Clone, Copy, Debug, PartialEq, Eq, Structural)]
pub struct MaxSizes {
    /// Most bytes as it is stored.
    pub compressed: u64,
    /// Most bytes once it is unpacked.
    pub decompressed: u64,
}

impl Default for MaxSizes {
    fn default() -> (m: Self)
        ensures
            m.compressed == DEFAULT_MAX_COMPRESSED,
            m.decompressed == DEFAULT_MAX_DECOMPRESSED,
            m.compressed == 0x4000_0000 && m.decompressed == 0x1_0000_0000,
    {
        MaxSizes { compressed: DEFAULT_MAX_COMPRESSED, decompressed: DEFAULT_MAX_DECOMPRESSED }
    }
}

/// A kernel image that is ready to be placed into guest memory.
#[derive(Clone, Debug)]
pub struct LoadedKernel {
    /// The image, unpacked.
    pub bytes: Vec<u8>,
    /// The format in which it came.
    pub format: ImageFormat,
    /// Its offset from the start of guest memory, from its header.
    pub text_offset: u64,
    /// Its size from its header; zero stands for the length of `bytes`.
    pub image_size: u64,
}

impl LoadedKernel {
    /// The bytes of guest memory that it takes.
    pub open spec fn extent(self) -> int {
        if self.image_size == 0 {
            self.bytes@.len() as int
        } else {
            self.image_size as int
        }
    }

    /// Where it goes, if that is an address: at its offset, but not into the part of
    /// memory that is kept free.
    pub open spec fn address(self) -> Option<int> {
        if DRAM_BASE + self.text_offset > u64::MAX {
            None
        } else if self.text_offset < KERNEL_LOAD_OFFSET {
            Some(DRAM_BASE + KERNEL_LOAD_OFFSET)
        } else {
            Some(DRAM_BASE + self.text_offset)
        }
    }

    /// The guest address at which it is placed.
    pub fn load_address(&self) -> (r: Result<u64, LoaderError>)
        ensures
            match r {
                Ok(a) => self.address() == Some(a as int),
                Err(LoaderError::InvalidTextOffset { text_offset }) => self.address() is None
                    && text_offset == self.text_offset,
                Err(_) => false,
            },
    {
        match DRAM_BASE.checked_add(self.text_offset) {
            None => Err(LoaderError::InvalidTextOffset { text_offset: self.text_offset }),
            Some(raw) => if raw < DRAM_BASE + KERNEL_LOAD_OFFSET {
                Ok(DRAM_BASE + KERNEL_LOAD_OFFSET)
            } else {
                Ok(raw)
            },
        }
    }

    /// The bytes of guest memory that it takes.
    pub fn image_bytes(&self) -> (n: u64)
        ensures
            n == self.extent(),
    {
        if self.image_size == 0 {
            self.bytes.len() as u64
        } else {
            self.image_size
        }
    }

    /// Checks that it fits into `ram_size_bytes` of guest memory, which ends at
    /// `dram_max_end` at the latest, and says where it goes.
    pub fn check_fits_in_ram(&self, ram_size_bytes: u64, dram_max_end: u64) -> (r: Result<
        u64,
        LoaderError,
    >)
        ensures
            match r {
                Ok(a) => self.address() == Some(a as int) && DRAM_BASE + ram_size_bytes
                    <= dram_max_end && a + self.extent() <= DRAM_BASE + ram_size_bytes,
                Err(LoaderError::InvalidTextOffset { text_offset }) => self.address() is None
                    && text_offset == self.text_offset,
                Err(LoaderError::DoesNotFitInRam { load_addr, image_size, ram_end }) => {
                    &&& self.address() == Some(load_addr as int)
                    &&& image_size == self.extent()
                    &&& if DRAM_BASE + ram_size_bytes > dram_max_end {
                        ram_end == dram_max_end
                    } else {
                        ram_end == DRAM_BASE + ram_size_bytes && load_addr + image_size > ram_end
                    }
                },
                Err(_) => false,
            },
            r is Ok <==> self.address() is Some && 0x8000_0000 + ram_size_bytes <= dram_max_end
                && self.address()->0 + self.extent() <= 0x8000_0000 + ram_size_bytes,
    {
        let load_addr: u64 = match self.load_address() {
            Ok(a) => a,
            Err(e) => return Err(e),
        };
        let needed: u64 = self.image_bytes();
        let ram_end: u64 = match DRAM_BASE.checked_add(ram_size_bytes) {
            Some(end) if end <= dram_max_end => end,
            _ => return Err(
                LoaderError::DoesNotFitInRam {
                    load_addr,
                    image_size: needed,
                    ram_end: dram_max_end,
                },
            ),
        };
        match load_addr.checked_add(needed) {
            Some(end) if end <= ram_end => Ok(load_addr),
            _ => Err(LoaderError::DoesNotFitInRam { load_addr, image_size: needed, ram_end }),
        }
    }
}

/// Whether the magic of a kernel image stands at its place.
pub open spec fn marked(bytes: Seq<u8>) -> bool {
    AARCH64_MAGIC_OFFSET + 4 <= bytes.len() && bytes.subrange(
        AARCH64_MAGIC_OFFSET as int,
        AARCH64_MAGIC_OFFSET + 4,
    ) == magic_aarch64()
}

/// The format that the first bytes of an image tell.
pub open spec fn format_of(bytes: Seq<u8>) -> Option<ImageFormat> {
    if magic_zst().is_prefix_of(bytes) {
        Some(ImageFormat::Zstd)
    } else if magic_gz().is_prefix_of(bytes) {
        Some(ImageFormat::Gzip)
    } else if magic_pe().is_prefix_of(bytes) {
        Some(ImageFormat::Pe)
    } else if marked(bytes) {
        Some(ImageFormat::Aarch64Image)
    } else {
        None
    }
}

fn has_aarch64_magic(bytes: &[u8]) -> (b: bool)
    ensures
        b == marked(bytes@),
{
    if bytes.len() < AARCH64_MAGIC_OFFSET + 4 {
        return false;
    }
    let ghost window = bytes@.subrange(AARCH64_MAGIC_OFFSET as int, AARCH64_MAGIC_OFFSET + 4);
    let b = bytes[0x38] == 0x41 && bytes[0x39] == 0x52 && bytes[0x3A] == 0x4D && bytes[0x3B]
        == 0x64;
    proof {
        assert(window.len() == 4);
        assert(window[0] == bytes@[0x38] && window[1] == bytes@[0x39] && window[2] == bytes@[0x3A]
            && window[3] == bytes@[0x3B]);
        if b {
            assert(window =~= magic_aarch64());
        } else {
            assert(magic_aarch64()[0] == 0x41 && magic_aarch64()[1] == 0x52 && magic_aarch64()[2]
                == 0x4D && magic_aarch64()[3] == 0x64);
        }
    }
    b
}

fn begins_with(bytes: &[u8], magic: &[u8]) -> (b: bool)
    ensures
        b == magic@.is_prefix_of(bytes@),
{
    if bytes.len() < magic.len() {
        return false;
    }
    let mut i: usize = 0;
    while i < magic.len()
        invariant
            i <= magic@.len() <= bytes@.len(),
            forall|k: int| 0 <= k < i ==> #[trigger] bytes@[k] == magic@[k],
        decreases magic@.len() - i,
    {
        if bytes[i] != magic[i] {
            assert(bytes@.subrange(0, magic@.len() as int)[i as int] != magic@[i as int]);
            return false;
        }
        i = i + 1;
    }
    assert(magic@ =~= bytes@.subrange(0, magic@.len() as int));
    true
}

/// Tells the format of an image from its first bytes.
pub fn detect_format(bytes: &[u8]) -> (r: Option<ImageFormat>)
    ensures
        r == format_of(bytes@),
{
    let zst: [u8; 4] = [0x28, 0xB5, 0x2F, 0xFD];
    let gz: [u8; 2] = [0x1F, 0x8B];
    let pe: [u8; 2] = [0x4D, 0x5A];
    assert(zst@ =~= magic_zst());
    assert(gz@ =~= magic_gz());
    assert(pe@ =~= magic_pe());
    if begins_with(bytes, zst.as_slice()) {
        return Some(ImageFormat::Zstd);
    }
    if begins_with(bytes, gz.as_slice()) {
        return Some(ImageFormat::Gzip);
    }
    if begins_with(bytes, pe.as_slice()) {
        return Some(ImageFormat::Pe);
    }
    if has_aarch64_magic(bytes) {
        return Some(ImageFormat::Aarch64Image);
    }
    None
}

/// What becomes of an unpacked image.
pub open spec fn parsed(
    payload: Seq<u8>,
    format: ImageFormat,
    r: Result<LoadedKernel, LoaderError>,
) -> bool {
    if payload.len() < MIN_IMAGE_SIZE {
        r matches Err(LoaderError::ImageTooSmall { size }) && size == payload.len()
    } else if !marked(payload) {
        r matches Err(LoaderError::MissingAarch64Magic)
    } else {
        r matches Ok(k) && k.bytes@ == payload && k.format == format && k.text_offset == wire::le64(
            payload,
            8,
        ) && k.image_size == wire::le64(payload, 16)
    }
}

/// Reads the boot header of an unpacked image that came in `format`.
pub fn parse_image(payload: Vec<u8>, format: ImageFormat) -> (r: Result<LoadedKernel, LoaderError>)
    ensures
        parsed(payload@, format, r),
{
    if payload.len() < MIN_IMAGE_SIZE {
        return Err(LoaderError::ImageTooSmall { size: payload.len() });
    }
    if !has_aarch64_magic(payload.as_slice()) {
        return Err(LoaderError::MissingAarch64Magic);
    }
    let text_offset: u64 = read_le64(payload.as_slice(), 8);
    let image_size: u64 = read_le64(payload.as_slice(), 16);
    Ok(LoadedKernel { bytes: payload, format, text_offset, image_size })
}

/// The decoder of `flate2` for gzip.
#[verifier::external_type_specification]
#[verifier::external_body]
#[verifier::reject_recursive_types(R)]
pub struct ExGzDecoder<R>(flate2::read::GzDecoder<R>);

/// The buffered reader of std.
#[verifier::external_type_specification]
#[verifier::external_body]
#[verifier::reject_recursive_types(R)]
pub struct ExBufReader<R: ?Sized>(std::io::BufReader<R>);

/// The decoder of `zstd`.
#[verifier::external_type_specification]
#[verifier::external_body]
#[verifier::reject_recursive_types(R)]
pub struct ExZstdDecoder<'a, R>(zstd::stream::read::Decoder<'a, R>);

/// What `flate2::read::GzDecoder` unpacks from the bytes it is made on; `None` where they
/// are no whole gzip member.
pub uninterp spec fn gz_output(packed: Seq<u8>) -> Option<Seq<u8>>;

/// What is still to be read from a gzip decoder; `None` where reading on meets an error.
pub uninterp spec fn gz_left(d: flate2::read::GzDecoder<&[u8]>) -> Option<Seq<u8>>;

/// What `zstd::stream::read::Decoder` unpacks from the bytes it is made on; `None` where
/// they are no sequence of whole frames.
pub uninterp spec fn zstd_output(packed: Seq<u8>) -> Option<Seq<u8>>;

/// What is still to be read from a zstd decoder; `None` where the packed bytes that are
/// left are faulty.
pub uninterp spec fn zstd_left(
    d: zstd::stream::read::Decoder<'static, std::io::BufReader<&[u8]>>,
) -> Option<Seq<u8>>;

/// `flate2::read::GzDecoder::new` makes a decoder on the bytes; what can be read from it
/// depends on them alone.
#[verifier::external_body]
fn gz_open(packed: &[u8]) -> (d: flate2::read::GzDecoder<&[u8]>)
    ensures
        gz_left(d) == gz_output(packed@),
{
    flate2::read::GzDecoder::new(packed)
}

/// `Read::read` of `flate2::read::GzDecoder`, on a buffer with room, gives the next bytes
/// of what is left, none of them only at the end. It fails only where the packed bytes
/// are faulty, and then at the end at the latest; what can be read after a failure is
/// left open.
#[verifier::external_body]
fn gz_read(d: &mut flate2::read::GzDecoder<&[u8]>, buf: &mut Vec<u8>) -> (r: Result<
    usize,
    std::io::Error,
>)
    requires
        old(buf)@.len() > 0,
    ensures
        final(buf)@.len() == old(buf)@.len(),
        r is Err ==> gz_left(*old(d)) is None,
        r is Ok ==> r->Ok_0 <= old(buf)@.len() && next_chunk(
            gz_left(*old(d)),
            gz_left(*final(d)),
            final(buf)@,
            r->Ok_0 as int,
        ),
{
    d.read(buf.as_mut_slice())
}

/// `zstd::stream::read::Decoder::new` makes a decoder on the bytes; what can be read from
/// it depends on them alone. It fails only for want of memory, of which nothing is said.
#[verifier::external_body]
fn zstd_open(packed: &[u8]) -> (r: Result<
    zstd::stream::read::Decoder<'static, std::io::BufReader<&[u8]>>,
    std::io::Error,
>)
    ensures
        r is Ok ==> zstd_left(r->Ok_0) == zstd_output(packed@),
{
    zstd::stream::read::Decoder::new(packed)
}

/// `Read::read` of `zstd::stream::read::Decoder`, on a buffer with room, gives the next
/// bytes of what is left, none of them only at the end. It fails where the packed bytes
/// are faulty, or for want of memory; which, and what can be read after a failure, is
/// left open.
#[verifier::external_body]
fn zstd_read(
    d: &mut zstd::stream::read::Decoder<'static, std::io::BufReader<&[u8]>>,
    buf: &mut Vec<u8>,
) -> (r: Result<usize, std::io::Error>)
    requires
        old(buf)@.len() > 0,
    ensures
        final(buf)@.len() == old(buf)@.len(),
        r is Ok ==> r->Ok_0 <= old(buf)@.len() && next_chunk(
            zstd_left(*old(d)),
            zstd_left(*final(d)),
            final(buf)@,
            r->Ok_0 as int,
        ),
{
    d.read(buf.as_mut_slice())
}

/// The first `n` bytes of `buf` are the next of those that were left, and there are none
/// only at the end.
pub open spec fn next_chunk(
    before: Option<Seq<u8>>,
    after: Option<Seq<u8>>,
    buf: Seq<u8>,
    n: int,
) -> bool {
    match before {
        Some(rest) => n <= rest.len() && buf.take(n) == rest.take(n) && after == Some(rest.skip(n))
            && (n == 0 ==> rest.len() == 0),
        None => n > 0 && after is None,
    }
}

/// A source of unpacked bytes.
trait Unpacker {
    /// The bytes that are left; `None` if the packed ones are faulty.
    spec fn left(&self) -> Option<Seq<u8>>;

    /// Whether it fails on faulty bytes only.
    spec fn fails_on_faults_only(&self) -> bool;

    /// Unpacks the next bytes into `buf`.
    fn next(&mut self, buf: &mut Vec<u8>) -> (r: Result<usize, std::io::Error>)
        requires
            old(buf)@.len() > 0,
        ensures
            final(self).fails_on_faults_only() == old(self).fails_on_faults_only(),
            final(buf)@.len() == old(buf)@.len(),
            match r {
                Ok(n) => n <= old(buf)@.len() && next_chunk(
                    old(self).left(),
                    final(self).left(),
                    final(buf)@,
                    n as int,
                ),
                Err(_) => old(self).fails_on_faults_only() ==> old(self).left() is None,
            },
    ;
}

struct GzUnpacker<'a> {
    decoder: flate2::read::GzDecoder<&'a [u8]>,
}

impl<'a> Unpacker for GzUnpacker<'a> {
    closed spec fn left(&self) -> Option<Seq<u8>> {
        gz_left(self.decoder)
    }

    closed spec fn fails_on_faults_only(&self) -> bool {
        true
    }

    fn next(&mut self, buf: &mut Vec<u8>) -> (r: Result<usize, std::io::Error>) {
        gz_read(&mut self.decoder, buf)
    }
}

struct ZstdUnpacker<'a> {
    decoder: zstd::stream::read::Decoder<'static, std::io::BufReader<&'a [u8]>>,
}

impl<'a> Unpacker for ZstdUnpacker<'a> {
    closed spec fn left(&self) -> Option<Seq<u8>> {
        zstd_left(self.decoder)
    }

    closed spec fn fails_on_faults_only(&self) -> bool {
        false
    }

    fn next(&mut self, buf: &mut Vec<u8>) -> (r: Result<usize, std::io::Error>) {
        zstd_read(&mut self.decoder, buf)
    }
}

/// What becomes of unpacking within a limit: all of the output if it is within `cap`, and
/// otherwise a refusal as soon as it is seen to be longer. Faulty bytes give an error.
pub open spec fn unpacked(
    output: Option<Seq<u8>>,
    cap: u64,
    faults_only: bool,
    r: Result<Vec<u8>, LoaderError>,
) -> bool {
    match r {
        Ok(out) => output == Some(out@) && out@.len() <= cap,
        Err(LoaderError::DecompressedTooLarge { size, cap: c }) => {
            &&& c == cap
            &&& size > cap
            &&& output matches Some(all) ==> size <= all.len()
        },
        Err(LoaderError::Io(_)) => faults_only ==> output is None,
        Err(_) => false,
    }
}

/// How unpacking goes on after a read.
#[derive(Debug)]
pub enum ReadStep {
    /// There may be more to read.
    More,
    /// All was read.
    Done,
    /// Reading failed, or there is more than allowed.
    Fail(LoaderError),
}

/// Takes in what a read of unpacked bytes gave: how many of `buf` are new, none at the end,
/// or an error. The new bytes go to the end of `out`, which is not to grow over `cap`.
pub fn take_read(
    out: &mut Vec<u8>,
    buf: &[u8],
    read: Result<usize, std::io::Error>,
    cap: u64,
) -> (step: ReadStep)
    requires
        read matches Ok(n) ==> n <= buf@.len(),
    ensures
        match read {
            Err(e) => step == ReadStep::Fail(LoaderError::Io(e)) && final(out)@ == old(out)@,
            Ok(n) => {
                &&& final(out)@ == old(out)@ + buf@.take(n as int)
                &&& step == if n == 0 {
                    ReadStep::Done
                } else if old(out)@.len() + n > cap {
                    ReadStep::Fail(
                        LoaderError::DecompressedTooLarge {
                            size: (old(out)@.len() + n) as u64,
                            cap,
                        },
                    )
                } else {
                    ReadStep::More
                }
            },
        },
{
    let n: usize = match read {
        Ok(n) => n,
        Err(e) => return ReadStep::Fail(LoaderError::Io(e)),
    };
    if n == 0 {
        assert(out@ + buf@.take(0) =~= out@);
        return ReadStep::Done;
    }
    let mut chunk: Vec<u8> = slice_to_vec(vstd::slice::slice_subrange(buf, 0, n));
    out.append(&mut chunk);
    assert(out@ =~= old(out)@ + buf@.take(n as int));
    let total: u64 = out.len() as u64;
    if total > cap {
        return ReadStep::Fail(LoaderError::DecompressedTooLarge { size: total, cap });
    }
    ReadStep::More
}

fn bounded_read_to_end<U: Unpacker>(source: &mut U, cap: u64) -> (r: Result<Vec<u8>, LoaderError>)
    ensures
        unpacked(old(source).left(), cap, old(source).fails_on_faults_only(), r),
{
    let ghost all = source.left();
    let mut out: Vec<u8> = Vec::new();
    let mut buf: Vec<u8> = vec![0u8; CHUNK_SIZE];
    loop
        invariant
            buf@.len() == CHUNK_SIZE,
            out@.len() <= cap,
            source.fails_on_faults_only() == old(source).fails_on_faults_only(),
            all == old(source).left(),
            match all {
                Some(a) => out@.len() <= a.len() && out@ == a.take(out@.len() as int)
                    && source.left() == Some(a.skip(out@.len() as int)),
                None => source.left() is None,
            },
        decreases cap - out@.len(),
    {
        let ghost before = out@;
        let read = source.next(&mut buf);
        let ghost n = read->Ok_0 as int;
        let ghost given = read;
        match take_read(&mut out, buf.as_slice(), read, cap) {
            ReadStep::Fail(e) => {
                assert(given is Ok ==> out.len() == before.len() + n);
                return Err(e);
            },
            ReadStep::Done => {
                assert(out@ =~= before);
                assert(all matches Some(a) ==> out@ =~= a);
                return Ok(out);
            },
            ReadStep::More => {},
        }
        proof {
            if let Some(a) = all {
                let k = before.len() as int;
                assert(out@ =~= before + buf@.take(n));
                assert(a.skip(k).take(n) =~= a.subrange(k, k + n));
                assert(out@ =~= a.take(k + n));
                assert(a.skip(k).skip(n) =~= a.skip(k + n));
            }
        }
    }
}

/// Unpacks a gzip member within a limit.
pub fn decompress_gzip(bytes: &[u8], cap: u64) -> (r: Result<Vec<u8>, LoaderError>)
    ensures
        unpacked(gz_output(bytes@), cap, true, r),
{
    let mut source = GzUnpacker { decoder: gz_open(bytes) };
    bounded_read_to_end(&mut source, cap)
}

/// Unpacks zstd frames within a limit. For want of memory it may fail on any bytes.
pub fn decompress_zstd(bytes: &[u8], cap: u64) -> (r: Result<Vec<u8>, LoaderError>)
    ensures
        unpacked(zstd_output(bytes@), cap, false, r),
{
    match zstd_open(bytes) {
        Ok(decoder) => {
            let mut source = ZstdUnpacker { decoder };
            bounded_read_to_end(&mut source, cap)
        },
        Err(e) => Err(LoaderError::Io(e)),
    }
}

/// What becomes of a packed image whose unpacked bytes are `output`.
pub open spec fn unpacked_and_parsed(
    output: Option<Seq<u8>>,
    caps: MaxSizes,
    format: ImageFormat,
    faults_only: bool,
    r: Result<LoadedKernel, LoaderError>,
) -> bool {
    match r {
        Err(LoaderError::Io(_)) => faults_only ==> output is None,
        Err(LoaderError::DecompressedTooLarge { size, cap }) => {
            &&& cap == caps.decompressed
            &&& size > cap
            &&& output matches Some(all) ==> size <= all.len()
        },
        _ => output matches Some(all) && all.len() <= caps.decompressed && parsed(all, format, r),
    }
}

/// What becomes of an image within the limits `caps`.
pub open spec fn loaded(bytes: Seq<u8>, caps: MaxSizes, r: Result<LoadedKernel, LoaderError>) -> bool {
    if bytes.len() > caps.compressed {
        r matches Err(LoaderError::CompressedTooLarge { size, cap }) && size == bytes.len() && cap
            == caps.compressed
    } else {
        match format_of(bytes) {
            None => r matches Err(LoaderError::UnknownFormat),
            Some(ImageFormat::Gzip) => unpacked_and_parsed(
                gz_output(bytes),
                caps,
                ImageFormat::Gzip,
                true,
                r,
            ),
            Some(ImageFormat::Zstd) => unpacked_and_parsed(
                zstd_output(bytes),
                caps,
                ImageFormat::Zstd,
                false,
                r,
            ),
            Some(format) => parsed(bytes, format, r),
        }
    }
}

/// Loads an image from its bytes, within the limits `caps`.
pub fn load_from_bytes_with_caps(bytes: &[u8], caps: MaxSizes) -> (r: Result<
    LoadedKernel,
    LoaderError,
>)
    ensures
        loaded(bytes@, caps, r),
{
    let bytes_len: u64 = bytes.len() as u64;
    if bytes_len > caps.compressed {
        return Err(LoaderError::CompressedTooLarge { size: bytes_len, cap: caps.compressed });
    }
    match detect_format(bytes) {
        None => Err(LoaderError::UnknownFormat),
        Some(ImageFormat::Gzip) => match decompress_gzip(bytes, caps.decompressed) {
            Ok(payload) => parse_image(payload, ImageFormat::Gzip),
            Err(e) => Err(e),
        },
        Some(ImageFormat::Zstd) => match decompress_zstd(bytes, caps.decompressed) {
            Ok(payload) => parse_image(payload, ImageFormat::Zstd),
            Err(e) => Err(e),
        },
        Some(format) => parse_image(slice_to_vec(bytes), format),
    }
}

/// Loads an image from its bytes, within the usual limits.
pub fn load_from_bytes(bytes: &[u8]) -> (r: Result<LoadedKernel, LoaderError>)
    ensures
        loaded(
            bytes@,
            (MaxSizes {
                compressed: DEFAULT_MAX_COMPRESSED,
                decompressed: DEFAULT_MAX_DECOMPRESSED,
            }),
            r,
        ),
{
    load_from_bytes_with_caps(bytes, MaxSizes::default())
}

/// Checks a path and the size of the file behind it, before the file is read.
pub fn check_file(path: &[u8], size: u64, caps: MaxSizes) -> (r: Result<(), LoaderError>)
    ensures
        match r {
            Ok(()) => path_fault(path@) is None && size <= caps.compressed,
            Err(LoaderError::PathRejected(why)) => path_fault(path@) == Some(why@),
            Err(LoaderError::CompressedTooLarge { size: s, cap }) => path_fault(path@) is None
                && size > caps.compressed && s == size && cap == caps.compressed,
            Err(_) => false,
        },
{
    match enforce_path_bounds(path) {
        Ok(()) => {},
        Err(e) => return Err(e),
    }
    if size > caps.compressed {
        return Err(LoaderError::CompressedTooLarge { size, cap: caps.compressed });
    }
    Ok(())
}

/// A loaded image is never longer than the limit, and carries its magic.
pub proof fn loaded_image_is_bounded(
    bytes: Seq<u8>,
    caps: MaxSizes,
    r: Result<LoadedKernel, LoaderError>,
)
    requires
        loaded(bytes, caps, r),
        r is Ok,
    ensures
        marked(r->Ok_0.bytes@),
        r->Ok_0.bytes@.len() >= MIN_IMAGE_SIZE,
        r->Ok_0.bytes@.len() <= caps.decompressed || r->Ok_0.bytes@ == bytes,
        bytes.len() <= caps.compressed,
{
}

/// A kernel never lies in the part of memory that is kept free.
pub proof fn kernel_lies_above_the_free_part(k: LoadedKernel)
    ensures
        k.address() matches Some(a) ==> a >= DRAM_BASE + KERNEL_LOAD_OFFSET,
{
}

/// The load address is the larger of the image's own place and the end of the part that is
/// kept free: no less than either and equal to one of them, for every offset whose sum with
/// the start of memory is an address. There is none for the other offsets.
pub proof fn kernel_goes_to_its_offset_or_to_the_floor(k: LoadedKernel)
    ensures
        k.address() is Some <==> 0x8000_0000 + k.text_offset <= u64::MAX,
        k.address() matches Some(a) ==> {
            &&& a >= 0x8000_0000 + k.text_offset
            &&& a >= 0x8000_0000 + 0x20_0000
            &&& a == 0x8000_0000 + k.text_offset || a == 0x8000_0000 + 0x20_0000
        },
{
}

/// Images with offsets in order are placed in order, and beyond the part that is kept free
/// as far apart as their offsets.
pub proof fn kernels_are_placed_in_order(a: LoadedKernel, b: LoadedKernel)
    requires
        a.text_offset <= b.text_offset,
        b.address() is Some,
    ensures
        a.address() is Some,
        a.address()->0 <= b.address()->0,
        a.text_offset >= 0x20_0000 ==> b.address()->0 - a.address()->0 == b.text_offset
            - a.text_offset,
        b.address()->0 - a.address()->0 <= b.text_offset - a.text_offset,
{
}

/// The format is told by the first bytes, in this order: the magic of zstd, of gzip and of
/// PE, and then that of a kernel image at byte 56.
pub proof fn formats_by_their_bytes(b: Seq<u8>)
    ensures
        ({
            let zst = b.len() >= 4 && b[0] == 0x28 && b[1] == 0xB5 && b[2] == 0x2F && b[3] == 0xFD;
            let gz = b.len() >= 2 && b[0] == 0x1F && b[1] == 0x8B;
            let pe = b.len() >= 2 && b[0] == 0x4D && b[1] == 0x5A;
            let arm = b.len() >= 60 && b[56] == 0x41 && b[57] == 0x52 && b[58] == 0x4D && b[59]
                == 0x64;
            &&& marked(b) <==> arm
            &&& format_of(b) == Some(ImageFormat::Zstd) <==> zst
            &&& format_of(b) == Some(ImageFormat::Gzip) <==> gz
            &&& format_of(b) == Some(ImageFormat::Pe) <==> pe
            &&& format_of(b) == Some(ImageFormat::Aarch64Image) <==> arm && !zst && !gz && !pe
            &&& format_of(b) is None <==> !arm && !zst && !gz && !pe
        }),
{
    magic_at_56(b);
    let z = magic_zst();
    let g = magic_gz();
    let p = magic_pe();
    assert(z[0] == 0x28 && z[1] == 0xB5 && z[2] == 0x2F && z[3] == 0xFD);
    assert(g[0] == 0x1F && g[1] == 0x8B);
    assert(p[0] == 0x4D && p[1] == 0x5A);
    if b.len() >= 4 {
        let w = b.subrange(0, 4);
        assert(w[0] == b[0] && w[1] == b[1] && w[2] == b[2] && w[3] == b[3]);
        if b[0] == 0x28 && b[1] == 0xB5 && b[2] == 0x2F && b[3] == 0xFD {
            assert(z =~= w);
        }
    }
    if b.len() >= 2 {
        let w = b.subrange(0, 2);
        assert(w[0] == b[0] && w[1] == b[1]);
        if b[0] == 0x1F && b[1] == 0x8B {
            assert(g =~= w);
        }
        if b[0] == 0x4D && b[1] == 0x5A {
            assert(p =~= w);
        }
    }
}

proof fn magic_at_56(b: Seq<u8>)
    ensures
        marked(b) <==> b.len() >= 60 && b[56] == 0x41 && b[57] == 0x52 && b[58] == 0x4D && b[59]
            == 0x64,
{
    if b.len() >= 60 {
        let w = b.subrange(56, 60);
        let m = magic_aarch64();
        assert(w[0] == b[56] && w[1] == b[57] && w[2] == b[58] && w[3] == b[59]);
        assert(m[0] == 0x41 && m[1] == 0x52 && m[2] == 0x4D && m[3] == 0x64);
        if b[56] == 0x41 && b[57] == 0x52 && b[58] == 0x4D && b[59] == 0x64 {
            assert(w =~= m);
        }
    }
}

/// An unpacked image is kept whole, with its offset from bytes 8 to 15 and its size from
/// bytes 16 to 23, the lowest byte first. One of under 64 bytes, or without the magic, is
/// refused.
pub proof fn boot_headers_are_read(b: Seq<u8>, format: ImageFormat, r: Result<
    LoadedKernel,
    LoaderError,
>)
    requires
        parsed(b, format, r),
    ensures
        b.len() < 64 <==> r is Err && r->Err_0 is ImageTooSmall,
        b.len() >= 64 && !(b[56] == 0x41 && b[57] == 0x52 && b[58] == 0x4D && b[59] == 0x64)
            <==> r is Err && r->Err_0 is MissingAarch64Magic,
        r is Ok ==> ({
            let k = r->Ok_0;
            &&& k.bytes@ == b
            &&& k.format == format
            &&& k.text_offset == b[8] + 256 * (b[9] + 256 * (b[10] + 256 * (b[11] + 256 * (b[12]
                + 256 * (b[13] + 256 * (b[14] + 256 * b[15]))))))
            &&& k.image_size == b[16] + 256 * (b[17] + 256 * (b[18] + 256 * (b[19] + 256 * (b[20]
                + 256 * (b[21] + 256 * (b[22] + 256 * b[23]))))))
        }),
{
    magic_at_56(b);
}

/// What is loaded of bytes that are not packed is what stands in them; of packed bytes it
/// is what they unpack to, within the limit, under the format in which they came.
pub proof fn images_are_loaded_whole(b: Seq<u8>, caps: MaxSizes, r: Result<
    LoadedKernel,
    LoaderError,
>)
    requires
        loaded(b, caps, r),
    ensures
        r is Ok ==> b.len() <= caps.compressed && format_of(b) == Some(r->Ok_0.format),
        b.len() > caps.compressed <==> r is Err && r->Err_0 is CompressedTooLarge,
        b.len() <= caps.compressed && format_of(b) is None <==> r is Err && r->Err_0
            is UnknownFormat,
        r is Ok && r->Ok_0.format == ImageFormat::Gzip ==> gz_output(b) == Some(r->Ok_0.bytes@)
            && r->Ok_0.bytes@.len() <= caps.decompressed,
        r is Ok && r->Ok_0.format == ImageFormat::Zstd ==> zstd_output(b) == Some(r->Ok_0.bytes@)
            && r->Ok_0.bytes@.len() <= caps.decompressed,
        r is Ok && r->Ok_0.format != ImageFormat::Gzip && r->Ok_0.format != ImageFormat::Zstd
            ==> r->Ok_0.bytes@ == b,
{
}

/// An image takes as much memory as its header says, or, if that says nothing, as it has
/// bytes.
pub proof fn images_take_what_they_say(k: LoadedKernel)
    ensures
        k.image_size > 0 ==> k.extent() == k.image_size,
        k.image_size == 0 ==> k.extent() == k.bytes@.len(),
{
}

/// Which paths are accepted: UTF-8 of one to 1024 bytes, none of them zero.
pub proof fn paths_that_are_opened(path: Seq<u8>)
    ensures
        path_fault(path) is None <==> {
            &&& vstd::utf8::valid_utf8(path)
            &&& 1 <= path.len() <= 1024
            &&& forall|i: int| 0 <= i < path.len() ==> #[trigger] path[i] != 0
        },
{
    if !path.contains(0u8) {
        assert forall|i: int| 0 <= i < path.len() implies #[trigger] path[i] != 0 by {
            assert(path.contains(path[i]));
        }
    }
}

/// Whole packed bytes are unpacked exactly if they unpack to no more than the limit, and
/// then to all of it; more is refused as such.
pub proof fn unpacking_is_all_or_refused(all: Seq<u8>, cap: u64, r: Result<Vec<u8>, LoaderError>)
    requires
        unpacked(Some(all), cap, true, r),
    ensures
        r is Ok <==> all.len() <= cap,
        r is Ok ==> r->Ok_0@ == all,
        all.len() > cap ==> r is Err && r->Err_0 is DecompressedTooLarge && r->Err_0->DecompressedTooLarge_cap
            == cap,
{
}

/// Packed bytes that are faulty are never unpacked.
pub proof fn faulty_bytes_are_not_unpacked(
    cap: u64,
    faults_only: bool,
    r: Result<Vec<u8>, LoaderError>,
)
    requires
        unpacked(None, cap, faults_only, r),
    ensures
        r is Err,
{
}

} // verus!
