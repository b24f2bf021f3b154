use wakatiwai_fs::bootsector::decode_fsinfo;
use wakatiwai_fs::bootsector::FSInfo;
use wakatiwai_fs::device::DiskReader;
use wakatiwai_fs::device::MemDisk;
use wakatiwai_fs::fat::FATVariant;
use wakatiwai_fs::fat::FAT;

const SECTOR: usize = 512;

fn w16(img: &mut Vec<u8>, off: usize, v: u16) {
    img[off] = v as u8;
    img[off + 1] = (v >> 8) as u8;
}

fn w32(img: &mut Vec<u8>, off: usize, v: u32) {
    img[off] = v as u8;
    img[off + 1] = (v >> 8) as u8;
    img[off + 2] = (v >> 16) as u8;
    img[off + 3] = (v >> 24) as u8;
}

/// A minimal boot sector: one reserved sector, one FAT, a one-sector root
/// directory of 16 entries, one sector per cluster.
fn write_boot_sector(img: &mut Vec<u8>, total_sectors: u32, sectors_per_fat: u16) {
    w16(img, 11, 512);
    img[13] = 1;
    w16(img, 14, 1);
    img[16] = 1;
    w16(img, 17, 16);
    if total_sectors <= 0xFFFF {
        w16(img, 19, total_sectors as u16);
    } else {
        w16(img, 19, 0);
        w32(img, 32, total_sectors);
    }
    img[21] = 0xF8;
    w16(img, 22, sectors_per_fat);
    img[38] = 0x29; // extended boot signature
    img[43..54].copy_from_slice(b"TESTVOLUME ");
    img[54..62].copy_from_slice(b"FAT     ");
    w16(img, 510, 0xAA55);
}

/// A FAT12 volume with 100 clusters; the FAT lives in sector 1, the root
/// directory in sector 2, data from sector 3 on.
fn build_fat12() -> Vec<u8> {
    let total = 3 + 100;
    let mut img = vec![0u8; total * SECTOR];
    write_boot_sector(&mut img, total as u32, 1);
    img
}

/// Writes the 12-bit FAT entry of `cluster` into the FAT that starts at
/// sector 1, packed two entries per three bytes.
fn set_fat12(img: &mut Vec<u8>, cluster: usize, value: u16) {
    let off = SECTOR + cluster + cluster / 2;
    if cluster % 2 == 0 {
        img[off] = value as u8;
        img[off + 1] = (img[off + 1] & 0xF0) | ((value >> 8) as u8 & 0x0F);
    } else {
        img[off] = (img[off] & 0x0F) | ((value << 4) as u8);
        img[off + 1] = (value >> 4) as u8;
    }
}

fn volume(img: Vec<u8>) -> (MemDisk, FATVariant) {
    let disk = MemDisk::new(img, 1, 512, 512);
    let reader = DiskReader::new(&disk, 0);
    let fat = FAT::new(&reader).expect("volume must open");
    (disk, fat.fat_type)
}

fn next(img: Vec<u8>, cluster: u32) -> Option<u32> {
    let disk = MemDisk::new(img, 1, 512, 512);
    let reader = DiskReader::new(&disk, 0);
    let fat = FAT::new(&reader).expect("volume must open");
    fat.get_next_cluster(&reader, cluster).expect("read must succeed")
}

#[test]
fn fat12_even_and_odd_entries_round_trip() {
    // Adjacent even and odd entries share a byte; both must survive the
    // 12-bit packing unchanged.
    for &(even_cluster, even_val, odd_val) in
        &[(2usize, 0x123u16, 0xABCu16), (50, 0x00F, 0xF00), (88, 0x754, 0x2A2)] {
        let mut img = build_fat12();
        set_fat12(&mut img, even_cluster, even_val);
        set_fat12(&mut img, even_cluster + 1, odd_val);
        assert_eq!(next(img.clone(), even_cluster as u32), Some(even_val as u32));
        assert_eq!(next(img, (even_cluster + 1) as u32), Some(odd_val as u32));
    }
}

#[test]
fn fat12_entries_straddling_a_sector_boundary_round_trip() {
    // Cluster 340 sits at byte offset 510 of the FAT, cluster 341 at 511:
    // its word spans the last byte of the FAT's first sector and the first
    // byte of the next.
    let mut img = build_fat12();
    set_fat12(&mut img, 340, 0x655);
    set_fat12(&mut img, 341, 0x9AB);
    assert_eq!(next(img.clone(), 340), Some(0x655));
    assert_eq!(next(img, 341), Some(0x9AB));
}

#[test]
fn fat12_sentinels_end_the_chain() {
    for &v in &[0x000u16, 0x001, 0xFF7, 0xFF8, 0xFFF] {
        let mut img = build_fat12();
        set_fat12(&mut img, 10, v);
        assert_eq!(next(img, 10), None, "value {:#x} must terminate", v);
    }
}

#[test]
fn reserved_origin_clusters_have_no_successor() {
    let mut img = build_fat12();
    set_fat12(&mut img, 0, 0x123);
    set_fat12(&mut img, 1, 0x456);
    assert_eq!(next(img.clone(), 0), None);
    assert_eq!(next(img, 1), None);
}

#[test]
fn fat16_entries_and_sentinels() {
    // 5000 clusters: a FAT16 volume.
    let total = 3 + 5000;
    let mut img = vec![0u8; total * SECTOR];
    write_boot_sector(&mut img, total as u32, 1);
    w16(&mut img, SECTOR + 2 * 20, 0x1234);
    w16(&mut img, SECTOR + 2 * 21, 0xFFF8);
    w16(&mut img, SECTOR + 2 * 22, 0xFFF7);
    w16(&mut img, SECTOR + 2 * 23, 0x0000);
    assert_eq!(next(img.clone(), 20), Some(0x1234));
    assert_eq!(next(img.clone(), 21), None);
    assert_eq!(next(img.clone(), 22), None);
    assert_eq!(next(img, 23), None);
}

#[test]
fn variant_boundaries_are_exact() {
    // 4084 clusters: FAT12. 4085: FAT16. 65523: FAT16. 65524: FAT32.
    for &(clusters, expected) in &[
        (4084u32, FATVariant::FAT12),
        (4085, FATVariant::FAT16),
        (65523, FATVariant::FAT16),
        (65524, FATVariant::FAT32),
    ] {
        // Only sector 0 is read while opening, so one sector suffices.
        let mut img = vec![0u8; SECTOR];
        if expected == FATVariant::FAT32 {
            // FAT32 keeps its FAT size in the extended BPB; the data region
            // begins after 1 reserved + 256 FAT + 1 root sector.
            write_boot_sector(&mut img, 258 + clusters, 1);
            w16(&mut img, 22, 0);
            w32(&mut img, 36, 256);
            w32(&mut img, 44, 2); // root directory cluster
        } else {
            write_boot_sector(&mut img, 3 + clusters, 1);
        }
        let (_disk, variant) = volume(img);
        assert_eq!(variant, expected, "total clusters {}", clusters);
    }
}

#[test]
fn volume_labels_come_from_the_extended_bpb() {
    let img = build_fat12();
    let disk = MemDisk::new(img, 1, 512, 512);
    let reader = DiskReader::new(&disk, 0);
    let fat = FAT::new(&reader).unwrap();
    assert_eq!(fat.fat_type, FATVariant::FAT12);
    assert_eq!(fat.ebpb.volume_label().unwrap(), *b"TESTVOLUME ");
    assert_eq!(fat.ebpb.system_identifier().unwrap(), *b"FAT     ");
    assert_eq!(fat.total_sectors(), 103);
    assert_eq!(fat.first_data_sector(), 3);
    assert_eq!(fat.total_clusters(), 100);
}

#[test]
fn zero_sector_size_is_rejected() {
    let mut img = build_fat12();
    w16(&mut img, 11, 0);
    let disk = MemDisk::new(img, 1, 512, 512);
    let reader = DiskReader::new(&disk, 0);
    assert!(FAT::new(&reader).is_err());
}

#[test]
fn fsinfo_fields_decode_from_their_sector() {
    let mut sector = vec![0u8; 512];
    w32(&mut sector, 0, FSInfo::LEAD_FSINFO_SIGNATURE);
    w32(&mut sector, 484, FSInfo::MID_FSINFO_SIGNATURE);
    w32(&mut sector, 488, 1234);
    w32(&mut sector, 492, 56);
    w32(&mut sector, 508, FSInfo::TRAIL_FSINFO_SIGNATURE);
    let info = decode_fsinfo(&sector);
    assert_eq!(info.lead_signature, 0x41615252);
    assert_eq!(info.mid_signature, 0x61417272);
    assert_eq!(info.trail_signature, 0xAA550000);
    assert_eq!(info.last_known_free_cluster_count, 1234);
    assert_eq!(info.available_cluster_hint, 56);
}
