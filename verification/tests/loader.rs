//! Kernel images.

use std::io::Write;

use squib::loader::{
    check_file, detect_format, enforce_path_bounds, load_from_bytes, load_from_bytes_with_caps,
    parse_image, take_read, ImageFormat, LoaderError, MaxSizes, ReadStep, AARCH64_MAGIC_OFFSET,
    DRAM_BASE, KERNEL_LOAD_OFFSET, MIN_IMAGE_SIZE,
};

const MAGIC_PE: [u8; 2] = *b"MZ";
const MAGIC_GZ: [u8; 2] = [0x1F, 0x8B];
const MAGIC_ZST: [u8; 4] = [0x28, 0xB5, 0x2F, 0xFD];
const MAGIC_AARCH64_IMAGE: [u8; 4] = *b"ARM\x64";
const DRAM_MAX_END: u64 = 0x00FF_8000_0000;

fn synth_image(text_offset: u64, image_size: u64, payload_len: usize) -> Vec<u8> {
    let mut img = vec![0u8; payload_len.max(MIN_IMAGE_SIZE + 16)];
    img[8..16].copy_from_slice(&text_offset.to_le_bytes());
    img[16..24].copy_from_slice(&image_size.to_le_bytes());
    img[AARCH64_MAGIC_OFFSET..AARCH64_MAGIC_OFFSET + 4].copy_from_slice(&MAGIC_AARCH64_IMAGE);
    img
}

fn gzip(bytes: &[u8]) -> Vec<u8> {
    let mut compressed = Vec::new();
    let mut enc = flate2::write::GzEncoder::new(&mut compressed, flate2::Compression::default());
    enc.write_all(bytes).unwrap();
    enc.finish().unwrap();
    compressed
}

#[test]
fn detects_aarch64_image_by_offset_0x38_magic() {
    let img = synth_image(0x80000, 0, 256);
    assert_eq!(detect_format(&img), Some(ImageFormat::Aarch64Image));
}

#[test]
fn detects_pe_when_mz_at_offset_zero() {
    let mut img = synth_image(0x80000, 0, 256);
    img[..2].copy_from_slice(&MAGIC_PE);
    assert_eq!(detect_format(&img), Some(ImageFormat::Pe));
}

#[test]
fn detects_gzip_and_zstd_by_magic() {
    let mut g = vec![MAGIC_GZ[0], MAGIC_GZ[1]];
    g.extend_from_slice(&[0u8; 100]);
    assert_eq!(detect_format(&g), Some(ImageFormat::Gzip));

    let mut z = vec![MAGIC_ZST[0], MAGIC_ZST[1], MAGIC_ZST[2], MAGIC_ZST[3], 0, 0];
    z.extend_from_slice(&[0u8; 100]);
    assert_eq!(detect_format(&z), Some(ImageFormat::Zstd));
}

#[test]
fn rejects_unknown_format() {
    let bytes = vec![0xFFu8; 256];
    assert!(matches!(load_from_bytes(&bytes), Err(LoaderError::UnknownFormat)));
}

#[test]
fn rejects_too_small_image() {
    let bytes = vec![0u8; 32];
    let err = load_from_bytes(&bytes).unwrap_err();
    assert!(matches!(err, LoaderError::UnknownFormat));
}

#[test]
fn parses_text_offset_and_image_size() {
    let img = synth_image(0x80_0000, 0x100_0000, 0x100_0000);
    let loaded = load_from_bytes(&img).unwrap();
    assert_eq!(loaded.format, ImageFormat::Aarch64Image);
    assert_eq!(loaded.text_offset, 0x80_0000);
    assert_eq!(loaded.image_size, 0x100_0000);
}

#[test]
fn load_address_floors_at_kernel_load_offset() {
    let img = synth_image(0x80000, 0, 0x100_0000);
    let loaded = load_from_bytes(&img).unwrap();
    let addr = loaded.load_address().unwrap();
    assert_eq!(addr, DRAM_BASE + KERNEL_LOAD_OFFSET);
}

#[test]
fn load_address_uses_text_offset_when_above_floor() {
    let img = synth_image(0x80_0000, 0, 0x100_0000);
    let loaded = load_from_bytes(&img).unwrap();
    let addr = loaded.load_address().unwrap();
    assert_eq!(addr, DRAM_BASE + 0x80_0000);
}

#[test]
fn check_fits_in_ram_passes_when_image_fits() {
    let img = synth_image(0x80_0000, 0x0100_0000, 0x0100_0000);
    let loaded = load_from_bytes(&img).unwrap();
    let ram_size = 256 * 1024 * 1024;
    let load_addr = loaded.check_fits_in_ram(ram_size, DRAM_MAX_END).unwrap();
    assert_eq!(load_addr, DRAM_BASE + 0x80_0000);
}

#[test]
fn check_fits_in_ram_rejects_when_kernel_overflows() {
    let img = synth_image(0x80_0000, 0x1000_0000, 256);
    let loaded = load_from_bytes(&img).unwrap();
    let err = loaded.check_fits_in_ram(128 * 1024 * 1024, DRAM_MAX_END).unwrap_err();
    assert!(matches!(err, LoaderError::DoesNotFitInRam { .. }));
    assert_eq!(
        err.message(),
        "kernel image (size 268435456) would not fit in guest RAM (start 0x80800000, ram_end \
         0x88000000)"
    );
}

#[test]
fn memory_past_the_last_address_is_refused() {
    let img = synth_image(0x80_0000, 0x1000, 256);
    let loaded = load_from_bytes(&img).unwrap();
    for ram_size in [DRAM_MAX_END, u64::MAX] {
        match loaded.check_fits_in_ram(ram_size, DRAM_MAX_END) {
            Err(LoaderError::DoesNotFitInRam { ram_end, .. }) => assert_eq!(ram_end, DRAM_MAX_END),
            other => panic!("{other:?}"),
        }
    }
    let full = loaded.check_fits_in_ram(DRAM_MAX_END - DRAM_BASE, DRAM_MAX_END);
    assert!(full.is_ok());
}

#[test]
fn image_bytes_fall_back_to_the_length() {
    assert_eq!(load_from_bytes(&synth_image(0, 0, 4096)).unwrap().image_bytes(), 4096);
    assert_eq!(load_from_bytes(&synth_image(0, 77, 4096)).unwrap().image_bytes(), 77);
}

#[test]
fn invalid_text_offset_overflows_cleanly() {
    let img = synth_image(u64::MAX, 0, 256);
    let loaded = load_from_bytes(&img).unwrap();
    let err = loaded.load_address().unwrap_err();
    assert!(matches!(err, LoaderError::InvalidTextOffset { .. }));
    assert_eq!(
        err.message(),
        "invalid text_offset 0xffffffffffffffff: would overflow DRAM_BASE"
    );
    assert!(matches!(
        loaded.check_fits_in_ram(4096, DRAM_MAX_END),
        Err(LoaderError::InvalidTextOffset { text_offset: u64::MAX })
    ));
}

#[test]
fn gzip_decompression_round_trips() {
    let inner = synth_image(0x80_0000, 0x100_0000, 0x100_0000);
    let compressed = gzip(&inner);
    let loaded = load_from_bytes(&compressed).unwrap();
    assert_eq!(loaded.format, ImageFormat::Gzip);
    assert_eq!(loaded.text_offset, 0x80_0000);
    assert_eq!(loaded.image_size, 0x100_0000);
    assert_eq!(loaded.bytes, inner);
}

#[test]
fn zstd_decompression_round_trips() {
    let inner = synth_image(0x40_0000, 0x80_0000, 0x80_0000);
    let compressed = zstd::stream::encode_all(&inner[..], 0).unwrap();
    let loaded = load_from_bytes(&compressed).unwrap();
    assert_eq!(loaded.format, ImageFormat::Zstd);
    assert_eq!(loaded.text_offset, 0x40_0000);
    assert_eq!(loaded.bytes, inner);
}

#[test]
fn decompression_bomb_is_rejected() {
    let inner = synth_image(0x40_0000, 0x80_0000, 2 * 1024 * 1024);
    let compressed = zstd::stream::encode_all(&inner[..], 0).unwrap();
    let caps = MaxSizes { compressed: 8 * 1024 * 1024, decompressed: 1024 * 1024 };
    let err = load_from_bytes_with_caps(&compressed, caps).unwrap_err();
    assert!(matches!(err, LoaderError::DecompressedTooLarge { .. }));
    match load_from_bytes_with_caps(&gzip(&inner), caps) {
        Err(LoaderError::DecompressedTooLarge { size, cap }) => {
            assert_eq!(cap, 1024 * 1024);
            assert!(size > cap && size <= 2 * 1024 * 1024);
        }
        other => panic!("{other:?}"),
    }
}

#[test]
fn an_image_of_exactly_the_limit_is_loaded() {
    let inner = synth_image(0x40_0000, 0x80_0000, 1024 * 1024);
    let caps = MaxSizes { compressed: 8 * 1024 * 1024, decompressed: 1024 * 1024 };
    assert_eq!(load_from_bytes_with_caps(&gzip(&inner), caps).unwrap().bytes, inner);
}

#[test]
fn missing_aarch64_magic_after_decompression_rejected() {
    let inner = vec![0u8; 0x100];
    let compressed = zstd::stream::encode_all(&inner[..], 0).unwrap();
    let err = load_from_bytes(&compressed).unwrap_err();
    assert!(matches!(err, LoaderError::MissingAarch64Magic));
    assert_eq!(err.message(), "missing aarch64 'ARM\\x64' magic at offset 0x38");
}

#[test]
fn damaged_archives_are_io_errors() {
    let inner = synth_image(0x80_0000, 0, 4096);
    let mut cut = gzip(&inner);
    cut.truncate(cut.len() - 4);
    let err = load_from_bytes(&cut).unwrap_err();
    assert!(matches!(err, LoaderError::Io(_)));
    assert_eq!(err.message(), "kernel image I/O error");
    let mut cut = zstd::stream::encode_all(&inner[..], 0).unwrap();
    cut.truncate(cut.len() - 4);
    assert!(matches!(load_from_bytes(&cut), Err(LoaderError::Io(_))));
}

#[test]
fn short_images_are_refused_after_unpacking() {
    let err = load_from_bytes(&gzip(&[0u8; 63])).unwrap_err();
    assert!(matches!(err, LoaderError::ImageTooSmall { size: 63 }));
    assert_eq!(err.message(), "kernel image is too small (63 bytes; need ≥ 64)");
    assert!(matches!(
        parse_image(vec![0u8; 64], ImageFormat::Pe),
        Err(LoaderError::MissingAarch64Magic)
    ));
}

#[test]
fn packed_images_have_a_limit() {
    let img = synth_image(0, 0, 256);
    let caps = MaxSizes { compressed: 255, decompressed: 1024 };
    let err = load_from_bytes_with_caps(&img, caps).unwrap_err();
    assert!(matches!(err, LoaderError::CompressedTooLarge { size: 256, cap: 255 }));
    assert_eq!(err.message(), "compressed kernel image is too large (256 bytes; cap 255)");
    let err = check_file(b"/boot/Image", 256, caps).unwrap_err();
    assert!(matches!(err, LoaderError::CompressedTooLarge { size: 256, cap: 255 }));
    assert!(check_file(b"/boot/Image", 255, caps).is_ok());
}

fn path_fault(path: &[u8]) -> Option<String> {
    enforce_path_bounds(path).err().map(|e| e.message())
}

#[test]
fn paths_are_checked_before_they_are_opened() {
    assert_eq!(path_fault(b"/boot/Image"), None);
    assert_eq!(
        path_fault(b""),
        Some("kernel image path rejected at boundary: path must not be empty".to_string())
    );
    assert_eq!(
        path_fault(b"/a\0b"),
        Some("kernel image path rejected at boundary: path contains a NUL byte".to_string())
    );
    assert_eq!(
        path_fault(&[0xFF, 0xFE]),
        Some("kernel image path rejected at boundary: path is not valid UTF-8".to_string())
    );
    assert_eq!(path_fault(&[b'a'; 1024]), None);
    assert_eq!(
        path_fault(&[b'a'; 1025]),
        Some("kernel image path rejected at boundary: path exceeds PATH_MAX bytes".to_string())
    );
}

#[test]
fn reads_are_taken_in_within_the_limit() {
    let mut out = vec![1, 2];
    assert!(matches!(take_read(&mut out, &[3, 4, 5], Ok(2), 4), ReadStep::More));
    assert_eq!(out, vec![1, 2, 3, 4]);
    assert!(matches!(take_read(&mut out, &[9], Ok(0), 4), ReadStep::Done));
    assert_eq!(out, vec![1, 2, 3, 4]);
    assert!(matches!(
        take_read(&mut out, &[5], Ok(1), 4),
        ReadStep::Fail(LoaderError::DecompressedTooLarge { size: 5, cap: 4 })
    ));
    let broken = Err(std::io::Error::other("broken"));
    assert!(matches!(
        take_read(&mut out, &[6], broken, 9),
        ReadStep::Fail(LoaderError::Io(_))
    ));
    assert_eq!(out, vec![1, 2, 3, 4, 5]);
}
