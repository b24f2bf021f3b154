use wakatiwai_fs::device::DiskReader;
use wakatiwai_fs::device::MemDisk;
use wakatiwai_fs::gpt::GPT;
use wakatiwai_fs::mbr::PartitionTableError;
use wakatiwai_fs::mbr::MBR;

const BLOCK: usize = 512;
const NBLOCKS: usize = 64;

fn w16(img: &mut Vec<u8>, off: usize, v: u16) {
    img[off] = v as u8;
    img[off + 1] = (v >> 8) as u8;
}

fn w32(img: &mut Vec<u8>, off: usize, v: u32) {
    img[off] = v as u8;
    img[off + 1] = (v >> 8) as u8;
    img[off + 2] = (v >> 16) as u8;
    img[off + 3] = (v >> 24) as u8;
}

fn w64(img: &mut Vec<u8>, off: usize, v: u64) {
    for i in 0..8 {
        img[off + i] = (v >> (8 * i)) as u8;
    }
}

fn crc32(data: &[u8]) -> u32 {
    crc::Crc::<u32>::new(&crc::CRC_32_ISO_HDLC).checksum(data)
}

fn write_header(
    img: &mut Vec<u8>,
    off: usize,
    header_lba: u64,
    alt_lba: u64,
    entry_lba: u64,
    entry_count: u32,
) {
    img[off..off + 8].copy_from_slice(b"EFI PART");
    w32(img, off + 8, 0x00010000);
    w32(img, off + 12, 92);
    w32(img, off + 16, 0); // checksum, filled below
    w64(img, off + 24, header_lba);
    w64(img, off + 32, alt_lba);
    w64(img, off + 40, 2);
    w64(img, off + 48, (NBLOCKS - 2) as u64);
    for i in 0..16 {
        img[off + 56 + i] = 0x11;
    }
    w64(img, off + 72, entry_lba);
    w32(img, off + 80, entry_count);
    w32(img, off + 84, 128);
    w32(img, off + 88, 0xDEADBEEF);
    let crc = crc32(&img[off..off + 92]);
    w32(img, off + 16, crc);
}

fn write_entry(img: &mut Vec<u8>, off: usize, type_byte: u8, start: u64, end: u64) {
    img[off] = type_byte;
    w64(img, off + 32, start);
    w64(img, off + 40, end);
    w64(img, off + 48, 0x1);
    // A short UTF-16 name.
    w16(img, off + 56, 'b' as u16);
    w16(img, off + 58, 'o' as u16);
    w16(img, off + 60, 'o' as u16);
    w16(img, off + 62, 't' as u16);
}

fn build_disk() -> Vec<u8> {
    let mut img = vec![0u8; BLOCK * NBLOCKS];
    // Protective MBR.
    w32(&mut img, 440, 0xCAFEBABE);
    img[446] = 0x00;
    img[447] = 0x00;
    img[448] = 0x02;
    img[449] = 0x00;
    img[450] = 0xEE;
    w32(&mut img, 454, 1);
    w32(&mut img, 458, (NBLOCKS - 1) as u32);
    w16(&mut img, 510, 0xAA55);
    // Entry arrays: primary in block 2, alternate copy in block 3.
    for i in 0..4 {
        write_entry(&mut img, 2 * BLOCK + i * 128, if i == 0 { 0x0C } else { 0 }, 34, 40);
        write_entry(&mut img, 3 * BLOCK + i * 128, if i == 0 { 0x0C } else { 0 }, 34, 40);
    }
    // Primary header in block 1, alternate in the last block.
    write_header(&mut img, BLOCK, 1, (NBLOCKS - 1) as u64, 2, 4);
    write_header(&mut img, (NBLOCKS - 1) * BLOCK, (NBLOCKS - 1) as u64, 1, 3, 4);
    img
}

fn open(img: Vec<u8>) -> MemDisk {
    MemDisk::new(img, 7, 512, 512)
}

#[test]
fn valid_gpt_is_read() {
    let disk = open(build_disk());
    let reader = DiskReader::new(&disk, 0);
    let gpt = GPT::read_gpt(&reader).expect("valid GPT must be accepted");
    assert!(gpt.is_valid());
    assert_eq!(gpt.pmbr.disk_signature, 0xCAFEBABE);
    assert_eq!(gpt.header.header_size, 92);
    assert_eq!(gpt.header.entry_count, 4);
    assert_eq!(gpt.header.entry_size, 128);
    assert_eq!(gpt.header.entry_array_starting_lba, 2);
    assert_eq!(gpt.alt_header.entry_array_starting_lba, 3);
    assert_eq!(gpt.entries.len(), 4);
    assert_eq!(gpt.alt_entries.len(), 4);
    assert_eq!(gpt.entries[0].starting_lba, 34);
    assert_eq!(gpt.entries[0].ending_lba, 40);
    assert_eq!(gpt.entries[0].attributes, 1);
    assert_eq!(gpt.entries[0].type_guid, 0x0C);
    assert_eq!(gpt.entries[1].type_guid, 0);
    assert_eq!(gpt.entries[0].name[0], 'b' as u16);
    assert_eq!(gpt.entries[0].name[3], 't' as u16);
}

#[test]
fn bad_mbr_signature_is_rejected() {
    let mut img = build_disk();
    img[510] = 0x54;
    let disk = open(img);
    let reader = DiskReader::new(&disk, 0);
    assert_eq!(GPT::read_gpt(&reader).unwrap_err(), PartitionTableError::InvalidMbr);
}

#[test]
fn flipped_header_byte_fails_crc() {
    // Flip each byte of the primary header outside its stored CRC field
    // (offsets 16..20): every flip must make validation fail.
    for byte in 0..92 {
        if (16..20).contains(&byte) {
            continue;
        }
        let mut img = build_disk();
        img[512 + byte] ^= 0x40;
        let disk = open(img);
        let reader = DiskReader::new(&disk, 0);
        let r = GPT::read_gpt(&reader);
        assert!(r.is_err(), "flipping header byte {} must be caught", byte);
    }
}

#[test]
fn flipped_alt_header_byte_fails_crc() {
    let mut img = build_disk();
    img[(NBLOCKS - 1) * BLOCK + 40] ^= 0x01;
    let disk = open(img);
    let reader = DiskReader::new(&disk, 0);
    assert_eq!(GPT::read_gpt(&reader).unwrap_err(), PartitionTableError::InvalidHeader);
}

#[test]
fn mismatched_entry_arrays_are_rejected() {
    let mut img = build_disk();
    // Corrupt the alternate entry array copy only.
    img[3 * BLOCK + 32] ^= 0xFF;
    let disk = open(img);
    let reader = DiskReader::new(&disk, 0);
    assert_eq!(GPT::read_gpt(&reader).unwrap_err(), PartitionTableError::InvalidGpt);
}

#[test]
fn non_protective_mbr_is_rejected() {
    let mut img = build_disk();
    img[450] = 0x83; // partition type must be 0xEE
    let disk = open(img);
    let reader = DiskReader::new(&disk, 0);
    assert_eq!(GPT::read_gpt(&reader).unwrap_err(), PartitionTableError::InvalidGpt);
}

#[test]
fn nonzero_auxiliary_mbr_record_is_rejected() {
    let mut img = build_disk();
    w32(&mut img, 462 + 8, 9); // record 1 starting LBA
    let disk = open(img);
    let reader = DiskReader::new(&disk, 0);
    assert_eq!(GPT::read_gpt(&reader).unwrap_err(), PartitionTableError::InvalidGpt);
}

#[test]
fn mbr_read_decodes_fields() {
    let disk = open(build_disk());
    let reader = DiskReader::new(&disk, 0);
    let mbr = MBR::read_mbr(&reader).unwrap();
    assert!(mbr.is_valid());
    assert_eq!(mbr.signature, 0xAA55);
    assert_eq!(mbr.entries[0].partition_type, 0xEE);
    assert_eq!(mbr.entries[0].starting_lba, 1);
    assert_eq!(mbr.entries[0].starting_chs, [0, 2, 0]);
    assert_eq!(mbr.entries[3].sectors, 0);
}

#[test]
fn bad_entry_size_alignment_is_rejected() {
    let mut img = build_disk();
    // entry_size not a multiple of 128, CRC recomputed so only the
    // alignment check can reject it.
    w32(&mut img, 512 + 84, 100);
    w32(&mut img, 512 + 16, 0);
    let crc = crc32(&img[512..512 + 92]);
    w32(&mut img, 512 + 16, crc);
    let disk = open(img);
    let reader = DiskReader::new(&disk, 0);
    assert_eq!(GPT::read_gpt(&reader).unwrap_err(), PartitionTableError::InvalidHeader);
}
