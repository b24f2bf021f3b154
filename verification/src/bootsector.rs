//! The boot sector: the BIOS Parameter Block, the two extended-BPB shapes
//! that follow it, and the FAT32 FSInfo sector.

use vstd::prelude::*;

use crate::bytes::le16;
use crate::bytes::le16_at;
use crate::bytes::le32;
use crate::bytes::le32_at;

verus! {

/// The BIOS Parameter Block, common to all FAT volumes.
#[derive(Clone, Copy, Debug)]
pub struct BPB {
    /// OEM identifier.
    pub oem: [u8; 8],
    /// The number of bytes per sector.
    pub bytes_per_sector: u16,
    /// The number of sectors per cluster.
    pub sectors_per_cluster: u8,
    /// The number of reserved sectors, including boot record sectors.
    pub reserved_sector_count: u16,
    /// Number of File Allocation Tables on the volume.
    pub fat_count: u8,
    /// Number of root directory entries.
    pub root_dir_entry_count: u16,
    /// The total number of sectors, when it fits in 16 bits; otherwise 0 and
    /// `large_sector_count` holds the total.
    pub small_sector_count: u16,
    /// The type of media the volume lives on.
    pub media_descriptor_type: u8,
    /// Number of sectors per FAT, when it fits in 16 bits; otherwise 0 and
    /// the 32-bit extended BPB holds it.
    pub small_sectors_per_fat: u16,
    /// Number of sectors per track.
    pub sectors_per_track: u16,
    /// Number of sides on the storage media.
    pub sides_on_media: u16,
    /// The LBA where the partition starts.
    pub partition_lba_start: u32,
    /// The total number of sectors, when `small_sector_count` is 0.
    pub large_sector_count: u32,
}

/// `b` holds exactly the BPB fields laid out in the first 36 bytes of `s`.
pub open spec fn bpb_matches(b: BPB, s: Seq<u8>) -> bool {
    &&& b.oem@ == s.subrange(3, 11)
    &&& b.bytes_per_sector == le16_at(s, 11)
    &&& b.sectors_per_cluster == s[13]
    &&& b.reserved_sector_count == le16_at(s, 14)
    &&& b.fat_count == s[16]
    &&& b.root_dir_entry_count == le16_at(s, 17)
    &&& b.small_sector_count == le16_at(s, 19)
    &&& b.media_descriptor_type == s[21]
    &&& b.small_sectors_per_fat == le16_at(s, 22)
    &&& b.sectors_per_track == le16_at(s, 24)
    &&& b.sides_on_media == le16_at(s, 26)
    &&& b.partition_lba_start == le32_at(s, 28)
    &&& b.large_sector_count == le32_at(s, 32)
}

/// The extended BPB of FAT12 and FAT16 volumes.
#[derive(Clone, Copy, Debug)]
#[allow(non_camel_case_types)]
pub struct EBPB_1216 {
    /// The drive number.
    pub drive_number: u8,
    /// Extended boot record signature.
    pub signature: u8,
    /// Volume serial number.
    pub serial_number: u32,
    /// The label of this volume.
    pub volume_label: [u8; 11],
    /// A display-only representation of the file-system type.
    pub fs_type_label: [u8; 8],
    /// Bootable partition signature.
    pub boot_signature: u16,
}

/// `e` holds exactly the FAT12/16 extended-BPB fields of the boot sector `s`.
pub open spec fn ebpb_1216_matches(e: EBPB_1216, s: Seq<u8>) -> bool {
    &&& e.drive_number == s[36]
    &&& e.signature == s[38]
    &&& e.serial_number == le32_at(s, 39)
    &&& e.volume_label@ == s.subrange(43, 54)
    &&& e.fs_type_label@ == s.subrange(54, 62)
    &&& e.boot_signature == le16_at(s, 510)
}

/// The extended BPB of FAT32 volumes.
#[derive(Clone, Copy, Debug)]
#[allow(non_camel_case_types)]
pub struct EBPB_32 {
    /// Number of sectors per FAT.
    pub sectors_per_fat: u32,
    /// Flags.
    pub flags: u16,
    /// Major FAT32 version.
    pub version_number_major: u8,
    /// Minor FAT32 version.
    pub version_number_minor: u8,
    /// Cluster of the root directory.
    pub root_dir_cluster: u32,
    /// Sector holding the FSInfo structure.
    pub fsinfo_sector: u16,
    /// Sector holding the backup boot record.
    pub backup_boot_sector: u16,
    /// The drive number.
    pub drive_number: u8,
    /// Extended boot record signature.
    pub signature: u8,
    /// Volume serial number.
    pub serial_number: u32,
    /// The label of this volume.
    pub volume_label: [u8; 11],
    /// A display-only representation of the file-system type.
    pub fs_type_label: [u8; 8],
    /// Bootable partition signature.
    pub boot_signature: u16,
}

/// `e` holds exactly the FAT32 extended-BPB fields of the boot sector `s`.
pub open spec fn ebpb_32_matches(e: EBPB_32, s: Seq<u8>) -> bool {
    &&& e.sectors_per_fat == le32_at(s, 36)
    &&& e.flags == le16_at(s, 40)
    &&& e.version_number_major == s[42]
    &&& e.version_number_minor == s[43]
    &&& e.root_dir_cluster == le32_at(s, 44)
    &&& e.fsinfo_sector == le16_at(s, 48)
    &&& e.backup_boot_sector == le16_at(s, 50)
    &&& e.drive_number == s[64]
    &&& e.signature == s[66]
    &&& e.serial_number == le32_at(s, 67)
    &&& e.volume_label@ == s.subrange(71, 82)
    &&& e.fs_type_label@ == s.subrange(82, 90)
    &&& e.boot_signature == le16_at(s, 510)
}

/// The extended BPB, in whichever of its two mutually exclusive shapes the
/// volume carries.
#[derive(Clone, Copy, Debug)]
#[allow(non_camel_case_types)]
pub enum EBPB {
    /// The FAT12/16 shape.
    _1216(EBPB_1216),
    /// The FAT32 shape.
    _32(EBPB_32),
}

impl EBPB {
    /// Shortened boot signature of an extended boot record.
    pub const SHORTENED_BOOT_SIGNATURE: u8 = 0x28;

    /// Extended boot signature of an extended boot record, which permits
    /// access to the label fields.
    pub const EXTENDED_BOOT_SIGNATURE: u8 = 0x29;

    /// The signature byte of either shape.
    pub open spec fn spec_signature(&self) -> u8 {
        match *self {
            EBPB::_1216(e) => e.signature,
            EBPB::_32(e) => e.signature,
        }
    }

    /// The volume-label field of either shape.
    pub open spec fn spec_volume_label(&self) -> Seq<u8> {
        match *self {
            EBPB::_1216(e) => e.volume_label@,
            EBPB::_32(e) => e.volume_label@,
        }
    }

    /// The type-label field of either shape.
    pub open spec fn spec_fs_type_label(&self) -> Seq<u8> {
        match *self {
            EBPB::_1216(e) => e.fs_type_label@,
            EBPB::_32(e) => e.fs_type_label@,
        }
    }

    /// The volume's label, available only under the extended boot signature.
    pub fn volume_label(&self) -> (r: Option<[u8; 11]>)
        ensures
            r matches Some(l) ==> self.spec_signature() == 0x29 && l@ == self.spec_volume_label(),
            r is None <==> self.spec_signature() != 0x29,
    {
        match self {
            EBPB::_1216(e) => {
                if e.signature != Self::EXTENDED_BOOT_SIGNATURE {
                    None
                } else {
                    Some(e.volume_label)
                }
            },
            EBPB::_32(e) => {
                if e.signature != Self::EXTENDED_BOOT_SIGNATURE {
                    None
                } else {
                    Some(e.volume_label)
                }
            },
        }
    }

    /// The volume's file-system type label, available only under the extended
    /// boot signature.
    pub fn system_identifier(&self) -> (r: Option<[u8; 8]>)
        ensures
            r matches Some(l) ==> self.spec_signature() == 0x29 && l@ == self.spec_fs_type_label(),
            r is None <==> self.spec_signature() != 0x29,
    {
        match self {
            EBPB::_1216(e) => {
                if e.signature != Self::EXTENDED_BOOT_SIGNATURE {
                    None
                } else {
                    Some(e.fs_type_label)
                }
            },
            EBPB::_32(e) => {
                if e.signature != Self::EXTENDED_BOOT_SIGNATURE {
                    None
                } else {
                    Some(e.fs_type_label)
                }
            },
        }
    }
}

/// The FAT32 FSInfo sector.
#[derive(Clone, Copy, Debug)]
pub struct FSInfo {
    /// Lead signature.
    pub lead_signature: u32,
    /// Middle signature.
    pub mid_signature: u32,
    /// The last known free cluster count; accuracy is not guaranteed.
    pub last_known_free_cluster_count: u32,
    /// The cluster at which to start looking for free clusters.
    pub available_cluster_hint: u32,
    /// Trailing signature.
    pub trail_signature: u32,
}

impl FSInfo {
    /// The value the lead signature must hold.
    pub const LEAD_FSINFO_SIGNATURE: u32 = 0x41615252;

    /// The value the middle signature must hold.
    pub const MID_FSINFO_SIGNATURE: u32 = 0x61417272;

    /// The value the trailing signature must hold.
    pub const TRAIL_FSINFO_SIGNATURE: u32 = 0xAA550000;
}

/// `f` holds exactly the FSInfo fields laid out in the 512-byte sector `s`.
pub open spec fn fsinfo_matches(f: FSInfo, s: Seq<u8>) -> bool {
    &&& f.lead_signature == le32_at(s, 0)
    &&& f.mid_signature == le32_at(s, 484)
    &&& f.last_known_free_cluster_count == le32_at(s, 488)
    &&& f.available_cluster_hint == le32_at(s, 492)
    &&& f.trail_signature == le32_at(s, 508)
}

/// Decodes the BPB from a boot-sector buffer.
pub fn decode_bpb(buf: &Vec<u8>) -> (b: BPB)
    requires
        buf.len() >= 512,
    ensures
        bpb_matches(b, buf@),
{
    let b = BPB {
        oem: [buf[3], buf[4], buf[5], buf[6], buf[7], buf[8], buf[9], buf[10]],
        bytes_per_sector: le16(buf, 11),
        sectors_per_cluster: buf[13],
        reserved_sector_count: le16(buf, 14),
        fat_count: buf[16],
        root_dir_entry_count: le16(buf, 17),
        small_sector_count: le16(buf, 19),
        media_descriptor_type: buf[21],
        small_sectors_per_fat: le16(buf, 22),
        sectors_per_track: le16(buf, 24),
        sides_on_media: le16(buf, 26),
        partition_lba_start: le32(buf, 28),
        large_sector_count: le32(buf, 32),
    };
    proof {
        assert(b.oem@ =~= buf@.subrange(3, 11));
    }
    b
}

/// Decodes the FAT12/16 extended BPB from a boot-sector buffer.
pub fn decode_ebpb_1216(buf: &Vec<u8>) -> (e: EBPB_1216)
    requires
        buf.len() >= 512,
    ensures
        ebpb_1216_matches(e, buf@),
{
    let e = EBPB_1216 {
        drive_number: buf[36],
        signature: buf[38],
        serial_number: le32(buf, 39),
        volume_label: [
            buf[43],
            buf[44],
            buf[45],
            buf[46],
            buf[47],
            buf[48],
            buf[49],
            buf[50],
            buf[51],
            buf[52],
            buf[53],
        ],
        fs_type_label: [buf[54], buf[55], buf[56], buf[57], buf[58], buf[59], buf[60], buf[61]],
        boot_signature: le16(buf, 510),
    };
    proof {
        assert(e.volume_label@ =~= buf@.subrange(43, 54));
        assert(e.fs_type_label@ =~= buf@.subrange(54, 62));
    }
    e
}

/// Decodes the FAT32 extended BPB from a boot-sector buffer.
pub fn decode_ebpb_32(buf: &Vec<u8>) -> (e: EBPB_32)
    requires
        buf.len() >= 512,
    ensures
        ebpb_32_matches(e, buf@),
{
    let e = EBPB_32 {
        sectors_per_fat: le32(buf, 36),
        flags: le16(buf, 40),
        version_number_major: buf[42],
        version_number_minor: buf[43],
        root_dir_cluster: le32(buf, 44),
        fsinfo_sector: le16(buf, 48),
        backup_boot_sector: le16(buf, 50),
        drive_number: buf[64],
        signature: buf[66],
        serial_number: le32(buf, 67),
        volume_label: [
            buf[71],
            buf[72],
            buf[73],
            buf[74],
            buf[75],
            buf[76],
            buf[77],
            buf[78],
            buf[79],
            buf[80],
            buf[81],
        ],
        fs_type_label: [buf[82], buf[83], buf[84], buf[85], buf[86], buf[87], buf[88], buf[89]],
        boot_signature: le16(buf, 510),
    };
    proof {
        assert(e.volume_label@ =~= buf@.subrange(71, 82));
        assert(e.fs_type_label@ =~= buf@.subrange(82, 90));
    }
    e
}

/// Decodes the FSInfo structure from its sector.
pub fn decode_fsinfo(buf: &Vec<u8>) -> (f: FSInfo)
    requires
        buf.len() >= 512,
    ensures
        fsinfo_matches(f, buf@),
{
    FSInfo {
        lead_signature: le32(buf, 0),
        mid_signature: le32(buf, 484),
        last_known_free_cluster_count: le32(buf, 488),
        available_cluster_hint: le32(buf, 492),
        trail_signature: le32(buf, 508),
    }
}

} // verus!
