use wakatiwai_fs::device::DiskReader;
use wakatiwai_fs::device::MemDisk;
use wakatiwai_fs::fat::FATVariant;
use wakatiwai_fs::fs::FileSystem;
use wakatiwai_fs::fs::FileSystemOperationError;

const SECTOR: usize = 512;
const RESERVED: usize = 1;
const FAT_SECTORS: usize = 32;
const ROOT_SECTORS: usize = 1;
const FIRST_DATA: usize = RESERVED + FAT_SECTORS + ROOT_SECTORS;
const CLUSTERS: usize = 4600;

fn w16(img: &mut Vec<u8>, off: usize, v: u16) {
    img[off] = v as u8;
    img[off + 1] = (v >> 8) as u8;
}

fn w32(img: &mut Vec<u8>, off: usize, v: u32) {
    img[off] = v as u8;
    img[off + 1] = (v >> 8) as u8;
    img[off + 2] = (v >> 16) as u8;
    img[off + 3] = (v >> 24) as u8;
}

fn set_fat16(img: &mut Vec<u8>, cluster: usize, value: u16) {
    w16(img, RESERVED * SECTOR + 2 * cluster, value);
}

fn write_meta(
    img: &mut Vec<u8>,
    off: usize,
    name: &[u8; 8],
    ext: &[u8; 3],
    attrs: u8,
    cluster: u16,
    size: u32,
) {
    img[off..off + 8].copy_from_slice(name);
    img[off + 8..off + 11].copy_from_slice(ext);
    img[off + 11] = attrs;
    w16(img, off + 26, cluster);
    w32(img, off + 28, size);
}

fn cluster_offset(cluster: usize) -> usize {
    (cluster - 2 + FIRST_DATA) * SECTOR
}

fn pattern(len: usize, seed: u8) -> Vec<u8> {
    (0..len).map(|i| (i as u8).wrapping_mul(31).wrapping_add(seed)).collect()
}

/// A FAT16 volume with nested directories:
///   /A/B/C.TXT       700 bytes over clusters 4 and 5
///   /SUB/DATA.BIN    exactly 3 clusters (1536 bytes) over 7, 8, 9
///   /ROOT.TXT        5 bytes in cluster 10
///   /EMPTY.TXT       an empty file (first cluster 0)
fn build_volume() -> Vec<u8> {
    let total = FIRST_DATA + CLUSTERS;
    let mut img = vec![0u8; total * SECTOR];
    // Boot sector.
    w16(&mut img, 11, 512);
    img[13] = 1;
    w16(&mut img, 14, RESERVED as u16);
    img[16] = 1;
    w16(&mut img, 17, 16);
    w16(&mut img, 19, total as u16);
    img[21] = 0xF8;
    w16(&mut img, 22, FAT_SECTORS as u16);
    img[38] = 0x29;
    w16(&mut img, 510, 0xAA55);
    // Root directory: A (dir, cluster 2), SUB (dir, cluster 6),
    // ROOT.TXT (cluster 10), EMPTY.TXT (no clusters).
    let root = (RESERVED + FAT_SECTORS) * SECTOR;
    write_meta(&mut img, root, b"A       ", b"   ", 0x10, 2, 0);
    write_meta(&mut img, root + 32, b"SUB     ", b"   ", 0x10, 6, 0);
    write_meta(&mut img, root + 64, b"ROOT    ", b"TXT", 0x20, 10, 5);
    write_meta(&mut img, root + 96, b"EMPTY   ", b"TXT", 0x20, 0, 0);
    // /A (cluster 2): B (dir, cluster 3).
    write_meta(&mut img, cluster_offset(2), b"B       ", b"   ", 0x10, 3, 0);
    set_fat16(&mut img, 2, 0xFFFF);
    // /A/B (cluster 3): C.TXT, 700 bytes in clusters 4 -> 5.
    write_meta(&mut img, cluster_offset(3), b"C       ", b"TXT", 0x20, 4, 700);
    set_fat16(&mut img, 3, 0xFFFF);
    let c_data = pattern(700, 3);
    img[cluster_offset(4)..cluster_offset(4) + 512].copy_from_slice(&c_data[..512]);
    img[cluster_offset(5)..cluster_offset(5) + 188].copy_from_slice(&c_data[512..]);
    set_fat16(&mut img, 4, 5);
    set_fat16(&mut img, 5, 0xFFF8);
    // /SUB (cluster 6): DATA.BIN, 1536 bytes in clusters 7 -> 8 -> 9.
    write_meta(&mut img, cluster_offset(6), b"DATA    ", b"BIN", 0x20, 7, 1536);
    set_fat16(&mut img, 6, 0xFFFF);
    let d_data = pattern(1536, 7);
    for k in 0..3 {
        let dst = cluster_offset(7 + k);
        img[dst..dst + 512].copy_from_slice(&d_data[512 * k..512 * (k + 1)]);
    }
    set_fat16(&mut img, 7, 8);
    set_fat16(&mut img, 8, 9);
    set_fat16(&mut img, 9, 0xFFF8);
    // /ROOT.TXT (cluster 10): "hello".
    img[cluster_offset(10)..cluster_offset(10) + 5].copy_from_slice(b"hello");
    set_fat16(&mut img, 10, 0xFFFF);
    img
}

fn load(path: &str) -> Result<Vec<u8>, FileSystemOperationError> {
    let disk = MemDisk::new(build_volume(), 1, 512, 512);
    let reader = DiskReader::new(&disk, 0);
    let fs = FileSystem::new_filesystem(reader).expect("volume must open");
    assert_eq!(fs.backing.fat_type, FATVariant::FAT16);
    fs.load_file(path)
}

#[test]
fn nested_path_is_truncated_to_the_declared_size() {
    // The chain holds two whole clusters (1024 bytes); the file declares 700.
    let bytes = load("/a/b/c.txt").expect("file must load");
    assert_eq!(bytes.len(), 700);
    assert_eq!(bytes, pattern(700, 3));
}

#[test]
fn matching_is_case_insensitive() {
    assert_eq!(load("/A/B/C.TXT").unwrap().len(), 700);
    assert_eq!(load("/a/B/c.TxT").unwrap().len(), 700);
}

#[test]
fn end_to_end_three_cluster_file_loads_exactly() {
    let bytes = load("/sub/data.bin").expect("file must load");
    assert_eq!(bytes.len(), 1536);
    assert_eq!(bytes, pattern(1536, 7));
}

#[test]
fn missing_file_is_not_found() {
    assert_eq!(load("/missing").unwrap_err(), FileSystemOperationError::FileNotFound);
    assert_eq!(load("/a/b/nope.txt").unwrap_err(), FileSystemOperationError::FileNotFound);
}

#[test]
fn directory_read_as_file_is_rejected() {
    assert_eq!(load("/a").unwrap_err(), FileSystemOperationError::ReadDirectoryAsFile);
    assert_eq!(load("/sub").unwrap_err(), FileSystemOperationError::ReadDirectoryAsFile);
}

#[test]
fn relative_path_is_rejected() {
    assert_eq!(load("relative").unwrap_err(), FileSystemOperationError::NonAbsolutePath);
    assert_eq!(load("").unwrap_err(), FileSystemOperationError::NonAbsolutePath);
}

#[test]
fn file_used_as_directory_is_not_found() {
    assert_eq!(load("/root.txt/x").unwrap_err(), FileSystemOperationError::FileNotFound);
}

#[test]
fn root_file_loads() {
    assert_eq!(load("/root.txt").unwrap(), b"hello");
}

#[test]
fn empty_file_loads_empty() {
    assert_eq!(load("/empty.txt").unwrap(), Vec::<u8>::new());
}

#[test]
fn chain_into_bad_cluster_is_corrupt() {
    let mut img = build_volume();
    // Break C.TXT's chain: cluster 4 now points at the bad-cluster sentinel.
    set_fat16(&mut img, 4, 0xFFF7);
    // Rewrite: build_volume wrote 4 -> 5; point 4 at a defective entry.
    let disk = MemDisk::new(img, 1, 512, 512);
    let reader = DiskReader::new(&disk, 0);
    let fs = FileSystem::new_filesystem(reader).unwrap();
    assert_eq!(
        fs.load_file("/a/b/c.txt").unwrap_err(),
        FileSystemOperationError::CorruptClusterChain
    );
}

#[test]
fn cyclic_chain_is_corrupt() {
    let mut img = build_volume();
    set_fat16(&mut img, 4, 5);
    set_fat16(&mut img, 5, 4);
    let disk = MemDisk::new(img, 1, 512, 512);
    let reader = DiskReader::new(&disk, 0);
    let fs = FileSystem::new_filesystem(reader).unwrap();
    assert_eq!(
        fs.load_file("/a/b/c.txt").unwrap_err(),
        FileSystemOperationError::CorruptClusterChain
    );
}

#[test]
fn fat32_volume_resolves_through_its_root_cluster_chain() {
    // A FAT32 volume: 65530 clusters, root directory in cluster 2.
    let reserved = 1usize;
    let fat_sectors = 512usize;
    let first_data = reserved + fat_sectors;
    let clusters = 65530usize;
    let total = first_data + clusters;
    let mut img = vec![0u8; total * SECTOR];
    w16(&mut img, 11, 512);
    img[13] = 1;
    w16(&mut img, 14, reserved as u16);
    img[16] = 1;
    w16(&mut img, 17, 0);
    w16(&mut img, 19, 0);
    w32(&mut img, 32, total as u32);
    img[21] = 0xF8;
    w16(&mut img, 22, 0);
    w32(&mut img, 36, fat_sectors as u32);
    w32(&mut img, 44, 2); // root directory cluster
    img[66] = 0x29;
    w16(&mut img, 510, 0xAA55);
    let cl = |c: usize| (c - 2 + first_data) * SECTOR;
    let set32 = |img: &mut Vec<u8>, c: usize, v: u32| {
        w32(img, reserved * SECTOR + 4 * c, v);
    };
    // Root (cluster 2): FILE.BIN in cluster 3, 300 bytes.
    write_meta(&mut img, cl(2), b"FILE    ", b"BIN", 0x20, 3, 300);
    set32(&mut img, 2, 0x0FFFFFF8);
    let data = pattern(300, 9);
    img[cl(3)..cl(3) + 300].copy_from_slice(&data);
    set32(&mut img, 3, 0x0FFFFFFF);
    let disk = MemDisk::new(img, 1, 512, 512);
    let reader = DiskReader::new(&disk, 0);
    let fs = FileSystem::new_filesystem(reader).unwrap();
    assert_eq!(fs.backing.fat_type, FATVariant::FAT32);
    assert_eq!(fs.load_file("/file.bin").unwrap(), data);
}
