use wakatiwai_fs::directory::decode_directory;
use wakatiwai_fs::directory::Date;
use wakatiwai_fs::directory::DirectoryEntryMetadata;
use wakatiwai_fs::directory::Time;

fn w16(img: &mut Vec<u8>, off: usize, v: u16) {
    img[off] = v as u8;
    img[off + 1] = (v >> 8) as u8;
}

fn w32(img: &mut Vec<u8>, off: usize, v: u32) {
    img[off] = v as u8;
    img[off + 1] = (v >> 8) as u8;
    img[off + 2] = (v >> 16) as u8;
    img[off + 3] = (v >> 24) as u8;
}

/// Writes an 8.3 metadata record at `off`.
fn write_meta(
    img: &mut Vec<u8>,
    off: usize,
    name: &[u8; 8],
    ext: &[u8; 3],
    attrs: u8,
    cluster: u16,
    size: u32,
) {
    img[off..off + 8].copy_from_slice(name);
    img[off + 8..off + 11].copy_from_slice(ext);
    img[off + 11] = attrs;
    w16(img, off + 26, cluster);
    w32(img, off + 28, size);
}

/// Writes a long-file-name fragment record at `off` carrying 13 UTF-16 code
/// units.
fn write_lfn(img: &mut Vec<u8>, off: usize, order: u8, units: &[u16; 13], checksum: u8) {
    img[off] = order;
    let positions =
        [1usize, 3, 5, 7, 9, 14, 16, 18, 20, 22, 24, 28, 30];
    for (k, &p) in positions.iter().enumerate() {
        w16(img, off + p, units[k]);
    }
    img[off + 11] = 0x0F;
    img[off + 13] = checksum;
}

/// Splits a name into 13-unit fragments, null-terminated and 0xFFFF-padded
/// as the on-disk format demands.
fn fragments_of(name: &str) -> Vec<[u16; 13]> {
    let mut units: Vec<u16> = name.chars().map(|c| c as u16).collect();
    units.push(0);
    while units.len() % 13 != 0 {
        units.push(0xFFFF);
    }
    units
        .chunks(13)
        .map(|c| {
            let mut a = [0u16; 13];
            a.copy_from_slice(c);
            a
        })
        .collect()
}

#[test]
fn long_name_fragments_in_reverse_order_reconstruct_the_name() {
    // One short entry preceded by two fragment records, emitted on disk in
    // reverse order: the full name comes back exactly, including case.
    let name = "LongFileName.txt";
    let frags = fragments_of(name);
    assert_eq!(frags.len(), 2);
    let mut img = vec![0u8; 3 * 32];
    write_lfn(&mut img, 0, 0x42, &frags[1], 0x5A);
    write_lfn(&mut img, 32, 0x01, &frags[0], 0x5A);
    write_meta(&mut img, 64, b"LONGFI~1", b"TXT", 0x20, 9, 123);
    let entries = decode_directory(&img);
    assert_eq!(entries.len(), 1);
    assert_eq!(entries[0].name(), "LongFileName.txt");
    assert!(entries[0].is_file());
    assert_eq!(entries[0].metadata.first_cluster(), 9);
    assert_eq!(entries[0].metadata.file_size, 123);
    assert_eq!(entries[0].long_name.len(), 2);
    assert_eq!(entries[0].long_name[0].order, 0x01);
    assert_eq!(entries[0].long_name[1].order, 0x42);
}

#[test]
fn short_names_are_synthesized_uppercased() {
    let mut img = vec![0u8; 4 * 32];
    write_meta(&mut img, 0, b"HELLO   ", b"TXT", 0x20, 3, 10);
    write_meta(&mut img, 32, b"lower   ", b"txt", 0x20, 4, 10);
    write_meta(&mut img, 64, b"NOEXT   ", b"   ", 0x10, 5, 0);
    let entries = decode_directory(&img);
    assert_eq!(entries.len(), 3);
    assert_eq!(entries[0].name(), "HELLO.TXT");
    assert_eq!(entries[1].name(), "LOWER.TXT");
    assert_eq!(entries[2].name(), "NOEXT");
    assert!(entries[2].is_directory());
    assert!(!entries[2].is_file());
}

#[test]
fn deleted_records_are_skipped_and_zero_ends_the_directory() {
    let mut img = vec![0u8; 4 * 32];
    write_meta(&mut img, 0, b"KEEP    ", b"   ", 0x20, 2, 1);
    write_meta(&mut img, 32, b"GONE    ", b"   ", 0x20, 3, 1);
    img[32] = 0xE5;
    // Record 2 is all zero: the directory ends there.
    write_meta(&mut img, 96, b"UNSEEN  ", b"   ", 0x20, 4, 1);
    let entries = decode_directory(&img);
    assert_eq!(entries.len(), 1);
    assert_eq!(entries[0].name(), "KEEP");
}

#[test]
fn long_name_truncates_at_the_first_null_unit() {
    let mut units = [0xFFFFu16; 13];
    for (k, c) in "abc".chars().enumerate() {
        units[k] = c as u16;
    }
    units[3] = 0;
    let mut img = vec![0u8; 2 * 32];
    write_lfn(&mut img, 0, 0x41, &units, 0);
    write_meta(&mut img, 32, b"ABC     ", b"   ", 0x20, 2, 3);
    let entries = decode_directory(&img);
    assert_eq!(entries.len(), 1);
    assert_eq!(entries[0].name(), "abc");
}

#[test]
fn first_cluster_joins_both_halves() {
    let mut img = vec![0u8; 32];
    write_meta(&mut img, 0, b"BIG     ", b"   ", 0x20, 0x5678, 0);
    w16(&mut img, 20, 0x0012); // high half
    let entries = decode_directory(&img);
    assert_eq!(entries[0].metadata.first_cluster(), 0x0012_5678);
}

#[test]
fn packed_time_and_date_fields_decode() {
    let t = Time(0x8A61);
    assert_eq!(t.hour(), 34);
    assert_eq!(t.minute(), 6);
    assert_eq!(t.second(), 2);
    let d = Date(0x2E49);
    assert_eq!(d.year(), 2026);
    assert_eq!(d.month(), 4);
    assert_eq!(d.day(), 9);
}

#[test]
fn attribute_constants_match_the_format() {
    assert_eq!(DirectoryEntryMetadata::ATTRIBUTE_DIRECTORY, 0x10);
    assert_eq!(DirectoryEntryMetadata::ATTRIBUTE_LFN, 0x0F);
    assert_eq!(DirectoryEntryMetadata::ATTRIBUTE_READ_ONLY, 0x01);
}
