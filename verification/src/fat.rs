//! The FAT volume: variant classification from the total cluster count,
//! derived geometry, the FAT table walker, cluster-chain reads, and the
//! directory reads built on them.

use vstd::prelude::*;

use crate::bootsector::bpb_matches;
use crate::bootsector::decode_bpb;
use crate::bootsector::decode_ebpb_1216;
use crate::bootsector::decode_ebpb_32;
use crate::bootsector::ebpb_1216_matches;
use crate::bootsector::ebpb_32_matches;
use crate::bootsector::BPB;
use crate::bootsector::EBPB;
use crate::bytes::le16;
use crate::bytes::le16_at;
use crate::bytes::le32;
use crate::bytes::le32_at;
use crate::device::BlockRead;
use crate::device::DeviceError;
use crate::device::DiskReader;

verus! {

/// The three FAT widths, decided by the total cluster count alone.
#[derive(Clone, Copy, Debug, PartialEq, Eq, Structural)]
pub enum FATVariant {
    /// 12-bit table entries.
    FAT12,
    /// 16-bit table entries.
    FAT16,
    /// 32-bit table entries (28 bits used).
    FAT32,
}

/// The variant a total cluster count dictates: fewer than 4085 clusters is
/// FAT12, fewer than 65524 is FAT16, anything else FAT32.
pub open spec fn spec_variant_of(total_clusters: int) -> FATVariant {
    if total_clusters < 4085 {
        FATVariant::FAT12
    } else if total_clusters < 65524 {
        FATVariant::FAT16
    } else {
        FATVariant::FAT32
    }
}

/// Classifies a volume by its total cluster count.
pub fn variant_of(total_clusters: u64) -> (r: FATVariant)
    ensures
        r == spec_variant_of(total_clusters as int),
{
    if total_clusters < 4085 {
        FATVariant::FAT12
    } else if total_clusters < 65524 {
        FATVariant::FAT16
    } else {
        FATVariant::FAT32
    }
}

// Derived geometry, stated over the raw boot sector `s`. Nothing here is
// stored: every quantity is recomputed from the BPB fields.
/// Total sectors of the volume: the small count, or the large count when the
/// small one is zero.
pub open spec fn bs_total_sectors(s: Seq<u8>) -> int {
    if le16_at(s, 19) == 0 {
        le32_at(s, 32) as int
    } else {
        le16_at(s, 19) as int
    }
}

/// Sectors per FAT: the 16-bit count, or the 32-bit count of the FAT32
/// extended BPB when the 16-bit one is zero.
pub open spec fn bs_sectors_per_fat(s: Seq<u8>) -> int {
    if le16_at(s, 22) != 0 {
        le16_at(s, 22) as int
    } else {
        le32_at(s, 36) as int
    }
}

/// Sectors of the fixed root directory: its 32-byte entries rounded up to
/// whole sectors (zero on FAT32, whose root directory lives in clusters).
pub open spec fn bs_root_dir_sectors(s: Seq<u8>) -> int {
    (le16_at(s, 17) * 32 + le16_at(s, 11) - 1) / le16_at(s, 11) as int
}

/// First sector of the data region: reserved sectors, then the FATs, then the
/// fixed root directory.
pub open spec fn bs_first_data_sector(s: Seq<u8>) -> int {
    le16_at(s, 14) + s[16] * bs_sectors_per_fat(s) + bs_root_dir_sectors(s)
}

/// Total clusters of the data region.
pub open spec fn bs_total_clusters(s: Seq<u8>) -> int {
    (bs_total_sectors(s) - bs_first_data_sector(s)) / s[13] as int
}

/// The variant the boot sector dictates.
pub open spec fn bs_variant(s: Seq<u8>) -> FATVariant {
    spec_variant_of(bs_total_clusters(s))
}

/// The boot sector describes a volume this driver can open: it is at least
/// 512 bytes, sector and cluster sizes are nonzero, the data region fits in
/// the volume, and a FAT12/16 volume states its FAT size in the 16-bit field.
pub open spec fn boot_sector_ok(s: Seq<u8>) -> bool {
    &&& s.len() >= 512
    &&& le16_at(s, 11) >= 1
    &&& s[13] >= 1
    &&& bs_first_data_sector(s) <= bs_total_sectors(s)
    &&& (bs_variant(s) != FATVariant::FAT32 ==> le16_at(s, 22) != 0)
}

/// Why a volume could not be opened.
#[derive(Clone, Copy, Debug, PartialEq, Eq, Structural)]
pub enum VolumeError {
    /// A device read failed.
    Device(DeviceError),
    /// The boot sector does not describe a volume this driver can open.
    InvalidBootSector,
}

/// An opened FAT volume: the classified variant and the decoded boot-sector
/// structures. All geometry is derived, never stored.
#[derive(Clone, Copy, Debug)]
pub struct FAT {
    /// The volume's FAT width, classified from the total cluster count.
    pub fat_type: FATVariant,
    /// The BIOS Parameter Block.
    pub bpb: BPB,
    /// The extended BPB, in the shape the classification picked.
    pub ebpb: EBPB,
}

/// `f` was decoded from the boot sector `s`: the BPB fields match, the
/// extended BPB is the shape the classification dictates, and the stored
/// variant is the classified one.
pub open spec fn fat_matches(f: FAT, s: Seq<u8>) -> bool {
    &&& bpb_matches(f.bpb, s)
    &&& f.fat_type == bs_variant(s)
    &&& match f.ebpb {
        EBPB::_1216(e) => ebpb_1216_matches(e, s) && bs_variant(s) != FATVariant::FAT32,
        EBPB::_32(e) => ebpb_32_matches(e, s) && bs_variant(s) == FATVariant::FAT32,
    }
}

/// The boot sector: the first `ss` bytes of the volume.
pub open spec fn sector0(c: Seq<u8>, ss: int) -> Seq<u8> {
    c.subrange(0, ss)
}

/// The volume at the start of `c` (sector size `ss`) can be opened: its boot
/// sector is readable and describes a volume this driver accepts.
pub open spec fn volume_open_ok(c: Seq<u8>, ss: int) -> bool {
    &&& ss <= c.len()
    &&& boot_sector_ok(sector0(c, ss))
}

impl FAT {
    /// Total sectors of the volume.
    pub open spec fn spec_total_sectors(&self) -> int {
        if self.bpb.small_sector_count == 0 {
            self.bpb.large_sector_count as int
        } else {
            self.bpb.small_sector_count as int
        }
    }

    /// Sectors per FAT.
    pub open spec fn spec_sectors_per_fat(&self) -> int {
        if self.bpb.small_sectors_per_fat != 0 {
            self.bpb.small_sectors_per_fat as int
        } else {
            match self.ebpb {
                EBPB::_32(e) => e.sectors_per_fat as int,
                EBPB::_1216(_) => 0,
            }
        }
    }

    /// Sectors of the fixed root directory.
    pub open spec fn spec_root_dir_sectors(&self) -> int {
        (self.bpb.root_dir_entry_count * 32 + self.bpb.bytes_per_sector - 1)
            / self.bpb.bytes_per_sector as int
    }

    /// First sector of the FAT region.
    pub open spec fn spec_first_fat_sector(&self) -> int {
        self.bpb.reserved_sector_count as int
    }

    /// First sector of the data region.
    pub open spec fn spec_first_data_sector(&self) -> int {
        self.spec_first_fat_sector() + self.bpb.fat_count * self.spec_sectors_per_fat()
            + self.spec_root_dir_sectors()
    }

    /// Sectors of the data region.
    pub open spec fn spec_data_sectors(&self) -> int {
        self.spec_total_sectors() - self.spec_first_data_sector()
    }

    /// Total clusters of the data region.
    pub open spec fn spec_total_clusters(&self) -> int {
        self.spec_data_sectors() / self.bpb.sectors_per_cluster as int
    }

    /// A volume this driver operates on: nonzero sector and cluster sizes, a
    /// data region inside the volume, the extended-BPB shape matching the
    /// stored variant, and the variant matching the cluster count.
    pub open spec fn wf(&self) -> bool {
        &&& self.bpb.bytes_per_sector >= 1
        &&& self.bpb.sectors_per_cluster >= 1
        &&& self.spec_first_data_sector() <= self.spec_total_sectors()
        &&& match self.ebpb {
            EBPB::_1216(_) => self.fat_type != FATVariant::FAT32
                && self.bpb.small_sectors_per_fat != 0,
            EBPB::_32(_) => self.fat_type == FATVariant::FAT32,
        }
        &&& self.fat_type == spec_variant_of(self.spec_total_clusters())
    }

    /// Opens the volume whose boot sector is sector 0 of `reader`: decodes
    /// the BPB and both extended-BPB shapes, classifies the volume by its
    /// total cluster count, and keeps the shape that the classification
    /// dictates.
    pub fn new<R: BlockRead>(reader: &DiskReader<R>) -> (r: Result<FAT, VolumeError>)
        requires
            reader.wf(),
        ensures
            r matches Ok(f) ==> {
                &&& volume_open_ok(reader.contents(), reader.sector_size as int)
                &&& fat_matches(f, sector0(reader.contents(), reader.sector_size as int))
                &&& f.wf()
            },
            reader.reliable() ==> {
                let c = reader.contents();
                let ss = reader.sector_size as int;
                &&& (r is Ok <==> volume_open_ok(c, ss))
                &&& (r == Err::<FAT, VolumeError>(VolumeError::InvalidBootSector) <==> ss
                    <= c.len() && !boot_sector_ok(sector0(c, ss)))
                &&& ((r matches Err(e) && e matches VolumeError::Device(_)) <==> ss > c.len())
            },
    {
        let buf = match reader.read_sector(0) {
            Ok(ok) => ok,
            Err(err) => {
                return Err(VolumeError::Device(err));
            },
        };
        if buf.len() < 512 {
            return Err(VolumeError::InvalidBootSector);
        }
        let ghost s = sector0(reader.contents(), reader.sector_size as int);
        proof {
            assert(buf@ =~= s);
        }
        let bpb = decode_bpb(&buf);
        let ebpb_1216 = decode_ebpb_1216(&buf);
        let ebpb_32 = decode_ebpb_32(&buf);
        if bpb.bytes_per_sector == 0 || bpb.sectors_per_cluster == 0 {
            return Err(VolumeError::InvalidBootSector);
        }
        let total_sectors: u64 = if bpb.small_sector_count == 0 {
            bpb.large_sector_count as u64
        } else {
            bpb.small_sector_count as u64
        };
        let sectors_per_fat: u64 = if bpb.small_sectors_per_fat != 0 {
            bpb.small_sectors_per_fat as u64
        } else {
            ebpb_32.sectors_per_fat as u64
        };
        let root_dir_sectors: u64 = ((bpb.root_dir_entry_count as u64) * 32
            + (bpb.bytes_per_sector as u64) - 1) / (bpb.bytes_per_sector as u64);
        proof {
            assert((bpb.fat_count as u64) * sectors_per_fat <= 0xffu64 * 0xffffffffu64)
                by (nonlinear_arith)
                requires
                    bpb.fat_count as u64 <= 0xffu64,
                    sectors_per_fat <= 0xffffffffu64,
            ;
        }
        let first_data_sector: u64 = (bpb.reserved_sector_count as u64) + (bpb.fat_count as u64)
            * sectors_per_fat + root_dir_sectors;
        if first_data_sector > total_sectors {
            return Err(VolumeError::InvalidBootSector);
        }
        let total_clusters: u64 = (total_sectors - first_data_sector)
            / (bpb.sectors_per_cluster as u64);
        let variant = variant_of(total_clusters);
        if matches!(variant, FATVariant::FAT32) {
            Ok(FAT { fat_type: FATVariant::FAT32, bpb, ebpb: EBPB::_32(ebpb_32) })
        } else {
            if bpb.small_sectors_per_fat == 0 {
                return Err(VolumeError::InvalidBootSector);
            }
            Ok(FAT { fat_type: variant, bpb, ebpb: EBPB::_1216(ebpb_1216) })
        }
    }
}

/// Byte offset of cluster `cl`'s FAT entry, from the start of the volume:
/// FAT12 entries are packed three bytes per two entries, FAT16 entries are
/// two bytes wide, FAT32 entries four.
pub open spec fn fat_entry_offset(f: FAT, ss: int, cl: int) -> int {
    match f.fat_type {
        FATVariant::FAT12 => f.spec_first_fat_sector() * ss + cl + cl / 2,
        FATVariant::FAT16 => f.spec_first_fat_sector() * ss + 2 * cl,
        FATVariant::FAT32 => f.spec_first_fat_sector() * ss + 4 * cl,
    }
}

/// How many bytes the walker reads for one FAT entry.
pub open spec fn fat_entry_width(f: FAT) -> int {
    match f.fat_type {
        FATVariant::FAT32 => 4,
        _ => 2,
    }
}

/// Cluster `cl`'s FAT entry lies within the volume contents `c`.
pub open spec fn fat_entry_in_range(c: Seq<u8>, f: FAT, ss: int, cl: int) -> bool {
    fat_entry_offset(f, ss, cl) + fat_entry_width(f) <= c.len()
}

/// The value of cluster `cl`'s FAT entry: for FAT12, the low 12 bits of the
/// word at byte offset `cl + cl/2` when `cl` is even, the high 12 bits (the
/// word shifted right 4) when odd; for FAT16 the word at `2*cl`; for FAT32
/// the 32-bit word at `4*cl` masked to 28 bits.
pub open spec fn spec_fat_entry(c: Seq<u8>, f: FAT, ss: int, cl: int) -> u32 {
    match f.fat_type {
        FATVariant::FAT12 => {
            let w = le16_at(c, fat_entry_offset(f, ss, cl));
            if cl % 2 == 0 {
                (w & 0xFFF) as u32
            } else {
                (w >> 4) as u32
            }
        },
        FATVariant::FAT16 => le16_at(c, fat_entry_offset(f, ss, cl)) as u32,
        FATVariant::FAT32 => le32_at(c, fat_entry_offset(f, ss, cl)) & 0x0FFFFFFF,
    }
}

/// The entry value marks the end of a cluster chain.
pub open spec fn entry_is_eoc(v: FATVariant, x: u32) -> bool {
    match v {
        FATVariant::FAT12 => 0xFF8 <= x <= 0xFFFF,
        FATVariant::FAT16 => 0xFFF8 <= x <= 0xFFFF,
        FATVariant::FAT32 => 0x0FFFFFF8 <= x,
    }
}

/// The entry value is a bad-cluster, free or reserved sentinel: a chain that
/// continues into it is corrupt.
pub open spec fn entry_is_defective(v: FATVariant, x: u32) -> bool {
    ||| x == 0
    ||| x == 1
    ||| match v {
        FATVariant::FAT12 => x == 0xFF7,
        FATVariant::FAT16 => x == 0xFFF7,
        FATVariant::FAT32 => x == 0x0FFFFFF7,
    }
}

/// The chain step an entry value dictates: `None` for end-of-chain and for
/// every sentinel, the next cluster number otherwise.
pub open spec fn spec_next_cluster(v: FATVariant, x: u32) -> Option<u32> {
    if entry_is_eoc(v, x) || entry_is_defective(v, x) {
        None
    } else {
        Some(x)
    }
}

/// First sector of cluster `cl`'s data.
pub open spec fn cluster_first_sector(f: FAT, cl: int) -> int {
    (cl - 2) * f.bpb.sectors_per_cluster + f.spec_first_data_sector()
}

/// Cluster `cl`'s data lies within the volume contents `c`.
pub open spec fn cluster_data_in_range(c: Seq<u8>, f: FAT, ss: int, cl: int) -> bool {
    cluster_first_sector(f, cl) * ss + f.bpb.sectors_per_cluster * ss <= c.len()
}

/// The bytes of cluster `cl`: one whole cluster of sectors.
pub open spec fn cluster_data(c: Seq<u8>, f: FAT, ss: int, cl: int) -> Seq<u8> {
    c.subrange(
        cluster_first_sector(f, cl) * ss,
        cluster_first_sector(f, cl) * ss + f.bpb.sectors_per_cluster * ss,
    )
}

/// How a chain walk from cluster `cl` ends, with `fuel` steps allowed.
#[derive(Clone, Copy, Debug, PartialEq, Eq, Structural)]
pub enum ChainStatus {
    /// The walk reaches a clean end of chain (or starts below cluster 2 and
    /// reads nothing).
    Complete,
    /// A cluster's data or FAT entry lies outside the volume.
    DeviceFault,
    /// The walk runs into a bad, free or reserved entry, or never ends.
    Corrupt,
}

/// How the chain walk from `cl` ends. A walk given fuel beyond the volume's
/// cluster count that still runs out can only be cyclic, hence corrupt.
pub open spec fn chain_status(c: Seq<u8>, f: FAT, ss: int, cl: u32, fuel: nat) -> ChainStatus
    decreases fuel,
{
    if cl < 2 {
        ChainStatus::Complete
    } else if fuel == 0 {
        ChainStatus::Corrupt
    } else if !cluster_data_in_range(c, f, ss, cl as int) {
        ChainStatus::DeviceFault
    } else if !fat_entry_in_range(c, f, ss, cl as int) {
        ChainStatus::DeviceFault
    } else {
        let x = spec_fat_entry(c, f, ss, cl as int);
        if entry_is_eoc(f.fat_type, x) {
            ChainStatus::Complete
        } else if entry_is_defective(f.fat_type, x) {
            ChainStatus::Corrupt
        } else {
            chain_status(c, f, ss, x, (fuel - 1) as nat)
        }
    }
}

/// The bytes a chain walk from `cl` accumulates, cluster by cluster.
pub open spec fn chain_bytes(c: Seq<u8>, f: FAT, ss: int, cl: u32, fuel: nat) -> Seq<u8>
    decreases fuel,
{
    if cl < 2 {
        Seq::empty()
    } else if fuel == 0 {
        Seq::empty()
    } else if !cluster_data_in_range(c, f, ss, cl as int) {
        Seq::empty()
    } else if !fat_entry_in_range(c, f, ss, cl as int) {
        Seq::empty()
    } else {
        let x = spec_fat_entry(c, f, ss, cl as int);
        if entry_is_eoc(f.fat_type, x) || entry_is_defective(f.fat_type, x) {
            cluster_data(c, f, ss, cl as int)
        } else {
            cluster_data(c, f, ss, cl as int) + chain_bytes(c, f, ss, x, (fuel - 1) as nat)
        }
    }
}

/// The fuel every chain walk starts with: one step more than the volume has
/// clusters, so only a cyclic chain can run out.
pub open spec fn chain_fuel(f: FAT) -> nat {
    (f.spec_total_clusters() + 1) as nat
}

impl FAT {
    /// Total sectors of the volume.
    pub fn total_sectors(&self) -> (r: u64)
        ensures
            r == self.spec_total_sectors(),
    {
        if self.bpb.small_sector_count == 0 {
            self.bpb.large_sector_count as u64
        } else {
            self.bpb.small_sector_count as u64
        }
    }

    /// Sectors per FAT.
    pub fn sectors_per_fat(&self) -> (r: u64)
        ensures
            r == self.spec_sectors_per_fat(),
    {
        if self.bpb.small_sectors_per_fat != 0 {
            self.bpb.small_sectors_per_fat as u64
        } else {
            match self.ebpb {
                EBPB::_32(e) => e.sectors_per_fat as u64,
                EBPB::_1216(_) => 0,
            }
        }
    }

    /// Sectors of the fixed root directory.
    pub fn root_dir_sectors(&self) -> (r: u64)
        requires
            self.wf(),
        ensures
            r == self.spec_root_dir_sectors(),
    {
        ((self.bpb.root_dir_entry_count as u64) * 32 + (self.bpb.bytes_per_sector as u64) - 1)
            / (self.bpb.bytes_per_sector as u64)
    }

    /// First sector of the FAT region.
    pub fn first_fat_sector(&self) -> (r: u64)
        ensures
            r == self.spec_first_fat_sector(),
    {
        self.bpb.reserved_sector_count as u64
    }

    /// First sector of the data region.
    pub fn first_data_sector(&self) -> (r: u64)
        requires
            self.wf(),
        ensures
            r == self.spec_first_data_sector(),
    {
        let spf = self.sectors_per_fat();
        proof {
            assert((self.bpb.fat_count as u64) * spf <= 0xffu64 * 0xffffffffu64)
                by (nonlinear_arith)
                requires
                    self.bpb.fat_count as u64 <= 0xffu64,
                    spf <= 0xffffffffu64,
            ;
        }
        self.first_fat_sector() + (self.bpb.fat_count as u64) * spf + self.root_dir_sectors()
    }

    /// Sectors of the data region.
    pub fn data_sectors(&self) -> (r: u64)
        requires
            self.wf(),
        ensures
            r == self.spec_data_sectors(),
    {
        self.total_sectors() - self.first_data_sector()
    }

    /// Total clusters of the data region.
    pub fn total_clusters(&self) -> (r: u64)
        requires
            self.wf(),
        ensures
            r == self.spec_total_clusters(),
    {
        self.data_sectors() / (self.bpb.sectors_per_cluster as u64)
    }

    /// Whether `x` is an end-of-chain sentinel for this volume's FAT width.
    fn entry_end_of_chain(&self, x: u32) -> (r: bool)
        ensures
            r == entry_is_eoc(self.fat_type, x),
    {
        match self.fat_type {
            FATVariant::FAT12 => 0xFF8 <= x && x <= 0xFFFF,
            FATVariant::FAT16 => 0xFFF8 <= x && x <= 0xFFFF,
            FATVariant::FAT32 => 0x0FFFFFF8 <= x,
        }
    }

    /// Whether `x` is a bad-cluster, free or reserved sentinel.
    fn entry_defective(&self, x: u32) -> (r: bool)
        ensures
            r == entry_is_defective(self.fat_type, x),
    {
        x == 0 || x == 1 || x == match self.fat_type {
            FATVariant::FAT12 => 0xFF7,
            FATVariant::FAT16 => 0xFFF7,
            FATVariant::FAT32 => 0x0FFFFFF7,
        }
    }

    /// Reads cluster `cluster`'s raw FAT entry value.
    fn read_fat_entry<R: BlockRead>(&self, reader: &DiskReader<R>, cluster: u32) -> (r: Result<
        u32,
        DeviceError,
    >)
        requires
            reader.wf(),
            self.wf(),
            cluster >= 2,
        ensures
            r matches Ok(x) ==> fat_entry_in_range(
                reader.contents(),
                *self,
                reader.sector_size as int,
                cluster as int,
            ) && x == spec_fat_entry(
                reader.contents(),
                *self,
                reader.sector_size as int,
                cluster as int,
            ),
            reader.reliable() ==> (r is Ok <==> fat_entry_in_range(
                reader.contents(),
                *self,
                reader.sector_size as int,
                cluster as int,
            )),
    {
        let ss = reader.sector_size as u64;
        proof {
            assert((self.bpb.reserved_sector_count as u64) * ss <= 0xffffu64 * 0xffffffffu64)
                by (nonlinear_arith)
                requires
                    self.bpb.reserved_sector_count as u64 <= 0xffffu64,
                    ss <= 0xffffffffu64,
            ;
        }
        let fat_base = (self.bpb.reserved_sector_count as u64) * ss;
        match self.fat_type {
            FATVariant::FAT12 => {
                let off = fat_base + cluster as u64 + (cluster as u64) / 2;
                let buf = match reader.read_bytes(off, 2) {
                    Ok(ok) => ok,
                    Err(err) => {
                        return Err(err);
                    },
                };
                let word = le16(&buf, 0);
                if cluster % 2 == 0 {
                    Ok((word & 0xFFF) as u32)
                } else {
                    Ok((word >> 4) as u32)
                }
            },
            FATVariant::FAT16 => {
                let off = fat_base + 2 * (cluster as u64);
                let buf = match reader.read_bytes(off, 2) {
                    Ok(ok) => ok,
                    Err(err) => {
                        return Err(err);
                    },
                };
                Ok(le16(&buf, 0) as u32)
            },
            FATVariant::FAT32 => {
                let off = fat_base + 4 * (cluster as u64);
                let buf = match reader.read_bytes(off, 4) {
                    Ok(ok) => ok,
                    Err(err) => {
                        return Err(err);
                    },
                };
                Ok(le32(&buf, 0) & 0x0FFFFFFF)
            },
        }
    }

    /// The next cluster of a file's chain after `current_cluster`, or `None`
    /// when the chain ends there: on an end-of-chain entry, on a bad, free or
    /// reserved entry, and for the reserved clusters 0 and 1 themselves,
    /// which are never dereferenced.
    pub fn get_next_cluster<R: BlockRead>(
        &self,
        reader: &DiskReader<R>,
        current_cluster: u32,
    ) -> (r: Result<Option<u32>, DeviceError>)
        requires
            reader.wf(),
            self.wf(),
        ensures
            current_cluster <= 1 ==> r == Ok::<Option<u32>, DeviceError>(None),
            r matches Ok(v) ==> current_cluster >= 2 ==> fat_entry_in_range(
                reader.contents(),
                *self,
                reader.sector_size as int,
                current_cluster as int,
            ) && v == spec_next_cluster(
                self.fat_type,
                spec_fat_entry(
                    reader.contents(),
                    *self,
                    reader.sector_size as int,
                    current_cluster as int,
                ),
            ),
            reader.reliable() ==> (r is Ok <==> current_cluster <= 1 || fat_entry_in_range(
                reader.contents(),
                *self,
                reader.sector_size as int,
                current_cluster as int,
            )),
    {
        if current_cluster <= 1 {
            // Origin cluster is reserved.
            return Ok(None);
        }
        let value = match self.read_fat_entry(reader, current_cluster) {
            Ok(ok) => ok,
            Err(err) => {
                return Err(err);
            },
        };
        if self.entry_end_of_chain(value) || self.entry_defective(value) {
            Ok(None)
        } else {
            Ok(Some(value))
        }
    }

    /// Reads the whole cluster chain that starts at `start_cluster`: whole
    /// clusters, appended in chain order, until a clean end of chain. A chain
    /// that runs into a bad, free or reserved entry, or never ends, is
    /// reported as corrupt rather than silently cut short; a start below
    /// cluster 2 reads nothing.
    pub fn read_cluster_chain<R: BlockRead>(
        &self,
        reader: &DiskReader<R>,
        start_cluster: u32,
    ) -> (r: Result<Vec<u8>, crate::fs::FileSystemOperationError>)
        requires
            reader.wf(),
            self.wf(),
        ensures
            r matches Ok(v) ==> chain_status(
                reader.contents(),
                *self,
                reader.sector_size as int,
                start_cluster,
                chain_fuel(*self),
            ) == ChainStatus::Complete && v@ == chain_bytes(
                reader.contents(),
                *self,
                reader.sector_size as int,
                start_cluster,
                chain_fuel(*self),
            ),
            reader.reliable() ==> {
                let st = chain_status(
                    reader.contents(),
                    *self,
                    reader.sector_size as int,
                    start_cluster,
                    chain_fuel(*self),
                );
                &&& (st == ChainStatus::Complete ==> r is Ok)
                &&& (st == ChainStatus::DeviceFault ==> r == Err::<
                    Vec<u8>,
                    crate::fs::FileSystemOperationError,
                >(crate::fs::FileSystemOperationError::DeviceFailure))
                &&& (st == ChainStatus::Corrupt ==> r == Err::<
                    Vec<u8>,
                    crate::fs::FileSystemOperationError,
                >(crate::fs::FileSystemOperationError::CorruptClusterChain))
            },
    {
        let ghost c = reader.contents();
        let ghost ss = reader.sector_size as int;
        let ghost fuel0 = chain_fuel(*self);
        let mut buffer: Vec<u8> = Vec::new();
        if start_cluster < 2 {
            return Ok(buffer);
        }
        let mut cluster = start_cluster;
        let mut fuel: u64 = self.total_clusters() + 1;
        proof {
            assert(fuel as nat == fuel0);
        }
        while fuel > 0
            invariant
                reader.wf(),
                self.wf(),
                c == reader.contents(),
                ss == reader.sector_size as int,
                fuel0 == chain_fuel(*self),
                cluster >= 2,
                chain_status(c, *self, ss, start_cluster, fuel0) == chain_status(
                    c,
                    *self,
                    ss,
                    cluster,
                    fuel as nat,
                ),
                chain_status(c, *self, ss, cluster, fuel as nat) == ChainStatus::Complete
                    ==> chain_bytes(c, *self, ss, start_cluster, fuel0) == buffer@ + chain_bytes(
                    c,
                    *self,
                    ss,
                    cluster,
                    fuel as nat,
                ),
            decreases fuel,
        {
            let spc = self.bpb.sectors_per_cluster as u64;
            proof {
                assert((cluster as u64 - 2) * spc <= 0xffffffffu64 * 0xffu64) by (nonlinear_arith)
                    requires
                        cluster as u64 - 2 <= 0xffffffffu64,
                        spc <= 0xffu64,
                ;
                assert(self.spec_first_data_sector() <= self.spec_total_sectors());
            }
            let sector = (cluster as u64 - 2) * spc + self.first_data_sector();
            let mut data = match reader.read_sectors(sector, self.bpb.sectors_per_cluster as usize) {
                Ok(ok) => ok,
                Err(_) => {
                    proof {
                        if reader.reliable() {
                            assert(!cluster_data_in_range(c, *self, ss, cluster as int));
                            assert(chain_status(c, *self, ss, cluster, fuel as nat)
                                == ChainStatus::DeviceFault);
                        }
                    }
                    return Err(crate::fs::FileSystemOperationError::DeviceFailure);
                },
            };
            proof {
                assert(cluster_data_in_range(c, *self, ss, cluster as int));
                assert(data@ =~= cluster_data(c, *self, ss, cluster as int));
            }
            let ghost buffer_before = buffer@;
            buffer.append(&mut data);
            let value = match self.read_fat_entry(reader, cluster) {
                Ok(ok) => ok,
                Err(_) => {
                    proof {
                        if reader.reliable() {
                            assert(!fat_entry_in_range(c, *self, ss, cluster as int));
                            assert(chain_status(c, *self, ss, cluster, fuel as nat)
                                == ChainStatus::DeviceFault);
                        }
                    }
                    return Err(crate::fs::FileSystemOperationError::DeviceFailure);
                },
            };
            if self.entry_end_of_chain(value) {
                proof {
                    assert(chain_status(c, *self, ss, cluster, fuel as nat)
                        == ChainStatus::Complete);
                    assert(chain_bytes(c, *self, ss, cluster, fuel as nat) == cluster_data(
                        c,
                        *self,
                        ss,
                        cluster as int,
                    ));
                }
                return Ok(buffer);
            }
            if self.entry_defective(value) {
                proof {
                    assert(chain_status(c, *self, ss, cluster, fuel as nat)
                        == ChainStatus::Corrupt);
                }
                return Err(crate::fs::FileSystemOperationError::CorruptClusterChain);
            }
            proof {
                assert(chain_status(c, *self, ss, cluster, fuel as nat) == chain_status(
                    c,
                    *self,
                    ss,
                    value,
                    (fuel - 1) as nat,
                ));
                assert(value >= 2);
                if chain_status(c, *self, ss, value, (fuel - 1) as nat) == ChainStatus::Complete {
                    assert(chain_bytes(c, *self, ss, cluster, fuel as nat) == cluster_data(
                        c,
                        *self,
                        ss,
                        cluster as int,
                    ) + chain_bytes(c, *self, ss, value, (fuel - 1) as nat));
                    assert(buffer_before + chain_bytes(c, *self, ss, cluster, fuel as nat)
                        =~= buffer@ + chain_bytes(c, *self, ss, value, (fuel - 1) as nat));
                }
            }
            cluster = value;
            fuel = fuel - 1;
        }
        proof {
            assert(chain_status(c, *self, ss, cluster, 0) == ChainStatus::Corrupt);
        }
        Err(crate::fs::FileSystemOperationError::CorruptClusterChain)
    }
}

/// The quotient of nonnegative integers is at most the dividend.
proof fn lemma_div_le_num(x: int, d: int)
    requires
        x >= 0,
        d >= 1,
    ensures
        0 <= x / d <= x,
{
    vstd::arithmetic::div_mod::lemma_fundamental_div_mod(x, d);
    vstd::arithmetic::div_mod::lemma_mod_bound(x, d);
    let q = x / d;
    if q < 0 {
        assert(d * q <= d * -1) by (nonlinear_arith)
            requires
                d >= 1,
                q <= -1,
        ;
        assert(false);
    }
    assert(q <= d * q) by (nonlinear_arith)
        requires
            d >= 1,
            q >= 0,
    ;
}

/// The fixed root directory (of a FAT12/16 volume) lies within the volume
/// contents `c`.
pub open spec fn root_dir_region_in_range(c: Seq<u8>, f: FAT, ss: int) -> bool {
    (f.spec_first_data_sector() - f.spec_root_dir_sectors()) * ss + f.spec_root_dir_sectors() * ss
        <= c.len()
}

/// How reading the root directory listing ends: a fixed-region read for
/// FAT12/16, a cluster-chain walk from the root directory cluster for FAT32.
pub open spec fn root_dir_status(c: Seq<u8>, f: FAT, ss: int) -> ChainStatus {
    match f.ebpb {
        EBPB::_1216(_) => if root_dir_region_in_range(c, f, ss) {
            ChainStatus::Complete
        } else {
            ChainStatus::DeviceFault
        },
        EBPB::_32(e) => chain_status(c, f, ss, e.root_dir_cluster, chain_fuel(f)),
    }
}

/// The raw bytes of the root directory listing.
pub open spec fn root_dir_bytes(c: Seq<u8>, f: FAT, ss: int) -> Seq<u8> {
    match f.ebpb {
        EBPB::_1216(_) => c.subrange(
            (f.spec_first_data_sector() - f.spec_root_dir_sectors()) * ss,
            (f.spec_first_data_sector() - f.spec_root_dir_sectors()) * ss
                + f.spec_root_dir_sectors() * ss,
        ),
        EBPB::_32(e) => chain_bytes(c, f, ss, e.root_dir_cluster, chain_fuel(f)),
    }
}

impl FAT {
    /// Reads and decodes the volume's root directory: from the fixed root
    /// sectors on FAT12/16, from the root directory's cluster chain on FAT32.
    pub fn get_root_directory<R: BlockRead>(&self, reader: &DiskReader<R>) -> (r: Result<
        Vec<crate::directory::DirectoryEntry>,
        crate::fs::FileSystemOperationError,
    >)
        requires
            reader.wf(),
            self.wf(),
        ensures
            r matches Ok(es) ==> root_dir_status(
                reader.contents(),
                *self,
                reader.sector_size as int,
            ) == ChainStatus::Complete && crate::directory::models_of(es@)
                == crate::directory::dir_models(
                root_dir_bytes(reader.contents(), *self, reader.sector_size as int),
                0,
                Seq::empty(),
            ),
            reader.reliable() ==> {
                let st = root_dir_status(reader.contents(), *self, reader.sector_size as int);
                &&& (st == ChainStatus::Complete ==> r is Ok)
                &&& (st == ChainStatus::DeviceFault ==> r == Err::<
                    Vec<crate::directory::DirectoryEntry>,
                    crate::fs::FileSystemOperationError,
                >(crate::fs::FileSystemOperationError::DeviceFailure))
                &&& (st == ChainStatus::Corrupt ==> r == Err::<
                    Vec<crate::directory::DirectoryEntry>,
                    crate::fs::FileSystemOperationError,
                >(crate::fs::FileSystemOperationError::CorruptClusterChain))
            },
    {
        let buf = match self.ebpb {
            EBPB::_1216(_) => {
                let rds = self.root_dir_sectors();
                proof {
                    lemma_div_le_num(
                        self.bpb.root_dir_entry_count * 32 + self.bpb.bytes_per_sector - 1,
                        self.bpb.bytes_per_sector as int,
                    );
                    assert(self.bpb.fat_count * self.spec_sectors_per_fat() >= 0)
                        by (nonlinear_arith)
                        requires
                            self.bpb.fat_count >= 0,
                            self.spec_sectors_per_fat() >= 0,
                    ;
                }
                let start = self.first_data_sector() - rds;
                match reader.read_sectors(start, rds as usize) {
                    Ok(ok) => ok,
                    Err(_) => {
                        return Err(crate::fs::FileSystemOperationError::DeviceFailure);
                    },
                }
            },
            EBPB::_32(e32) => {
                match self.read_cluster_chain(reader, e32.root_dir_cluster) {
                    Ok(ok) => ok,
                    Err(err) => {
                        return Err(err);
                    },
                }
            },
        };
        proof {
            assert(buf@ =~= root_dir_bytes(reader.contents(), *self, reader.sector_size as int));
        }
        Ok(self.read_raw_directory(&buf))
    }

    /// Decodes a directory's raw bytes, as read from this volume, into
    /// entries.
    pub fn read_raw_directory(&self, data: &Vec<u8>) -> (r: Vec<crate::directory::DirectoryEntry>)
        ensures
            crate::directory::models_of(r@) == crate::directory::dir_models(
                data@,
                0,
                Seq::empty(),
            ),
    {
        crate::directory::decode_directory(data)
    }
}

} // verus!
