//! The Master Boot Record: the legacy partition table in sector 0, which on a
//! GPT-managed disk survives only as the "protective" MBR.

use vstd::prelude::*;

use crate::bytes::le16;
use crate::bytes::le16_at;
use crate::bytes::le32;
use crate::bytes::le32_at;
use crate::device::BlockRead;
use crate::device::DeviceError;
use crate::device::DiskReader;

verus! {

/// Why a partition table could not be read.
#[derive(Clone, Copy, Debug, PartialEq, Eq, Structural)]
pub enum PartitionTableError {
    /// A device read failed.
    Device(DeviceError),
    /// The MBR trailer signature is wrong or the sector is too small.
    InvalidMbr,
    /// A GPT header copy fails its signature, size, alignment or CRC check.
    InvalidHeader,
    /// The protective-MBR invariant or the entry-array cross-check fails.
    InvalidGpt,
}

/// One of the MBR's four partition records.
#[derive(Clone, Copy, Debug)]
pub struct MBRPartitionEntry {
    /// Attribute bits.
    pub attributes: u8,
    /// CHS address of the first absolute sector in the partition.
    pub starting_chs: [u8; 3],
    /// The partition type.
    pub partition_type: u8,
    /// CHS address of the last absolute sector in the partition.
    pub ending_chs: [u8; 3],
    /// LBA address of the first absolute sector in the partition.
    pub starting_lba: u32,
    /// Number of sectors in the partition.
    pub sectors: u32,
}

/// `e` holds exactly the fields of the 16-byte partition record at offset
/// `off` of `s`.
pub open spec fn entry_matches(e: MBRPartitionEntry, s: Seq<u8>, off: int) -> bool {
    &&& e.attributes == s[off]
    &&& e.starting_chs@ == seq![s[off + 1], s[off + 2], s[off + 3]]
    &&& e.partition_type == s[off + 4]
    &&& e.ending_chs@ == seq![s[off + 5], s[off + 6], s[off + 7]]
    &&& e.starting_lba == le32_at(s, off + 8)
    &&& e.sectors == le32_at(s, off + 12)
}

/// The Master Boot Record of sector 0 (boot code omitted).
#[derive(Clone, Copy, Debug)]
pub struct MBR {
    /// A unique disk signature which may be used to identify the disk.
    pub disk_signature: u32,
    /// The four MBR partition records.
    pub entries: [MBRPartitionEntry; 4],
    /// Trailer signature; must hold [`MBR::MBR_SIGNATURE`].
    pub signature: u16,
}

/// `m` holds exactly the fields of the MBR laid out in the first 512 bytes of
/// `s`: the disk signature at offset 440, four partition records at offset
/// 446, and the trailer signature at offset 510.
pub open spec fn mbr_matches(m: MBR, s: Seq<u8>) -> bool {
    &&& m.disk_signature == le32_at(s, 440)
    &&& forall|i: int| 0 <= i < 4 ==> entry_matches(#[trigger] m.entries[i], s, 446 + 16 * i)
    &&& m.signature == le16_at(s, 510)
}

/// The first 512 bytes of `s` end in the MBR trailer signature.
pub open spec fn mbr_sig_ok(s: Seq<u8>) -> bool {
    le16_at(s, 510) == 0xAA55
}

/// Decodes the 16-byte partition record at offset `off` of `buf`.
fn decode_partition_entry(buf: &Vec<u8>, off: usize) -> (e: MBRPartitionEntry)
    requires
        off + 16 <= buf.len(),
    ensures
        entry_matches(e, buf@, off as int),
{
    let e = MBRPartitionEntry {
        attributes: buf[off],
        starting_chs: [buf[off + 1], buf[off + 2], buf[off + 3]],
        partition_type: buf[off + 4],
        ending_chs: [buf[off + 5], buf[off + 6], buf[off + 7]],
        starting_lba: le32(buf, off + 8),
        sectors: le32(buf, off + 12),
    };
    proof {
        assert(e.starting_chs@ =~= seq![buf@[off + 1], buf@[off + 2], buf@[off + 3]]);
        assert(e.ending_chs@ =~= seq![buf@[off + 5], buf@[off + 6], buf@[off + 7]]);
    }
    e
}

/// Decodes an MBR from `buf`, the contents of sector 0.
fn decode_mbr(buf: &Vec<u8>) -> (m: MBR)
    requires
        buf.len() >= 512,
    ensures
        mbr_matches(m, buf@),
{
    MBR {
        disk_signature: le32(buf, 440),
        entries: [
            decode_partition_entry(buf, 446),
            decode_partition_entry(buf, 462),
            decode_partition_entry(buf, 478),
            decode_partition_entry(buf, 494),
        ],
        signature: le16(buf, 510),
    }
}

impl MBR {
    /// The MBR trailer signature, used to verify that sector 0 holds an MBR.
    pub const MBR_SIGNATURE: u16 = 0xAA55;

    /// Reads the MBR from block 0 of the disk and checks its trailer
    /// signature.
    pub fn read_mbr<R: BlockRead>(reader: &DiskReader<R>) -> (r: Result<MBR, PartitionTableError>)
        requires
            reader.wf(),
        ensures
            r matches Ok(m) ==> {
                &&& reader.block_size >= 512
                &&& reader.block_size <= reader.contents().len()
                &&& mbr_matches(m, reader.contents())
                &&& mbr_sig_ok(reader.contents())
            },
            reader.reliable() ==> {
                let c = reader.contents();
                let bs = reader.block_size as int;
                &&& (r is Ok <==> 512 <= bs <= c.len() && mbr_sig_ok(c))
                &&& ((r matches Err(e) && e matches PartitionTableError::Device(_)) <==> bs
                    > c.len())
                &&& (r == Err::<MBR, PartitionTableError>(PartitionTableError::InvalidMbr) <==> bs
                    <= c.len() && (bs < 512 || !mbr_sig_ok(c)))
            },
    {
        let buf = match reader.read_block(0) {
            Ok(ok) => ok,
            Err(err) => {
                return Err(PartitionTableError::Device(err));
            },
        };
        if buf.len() < 512 {
            return Err(PartitionTableError::InvalidMbr);
        }
        proof {
            assert forall|i: int| 0 <= i < 512 implies buf@[i] == reader.contents()[i] by {}
        }
        let ret = decode_mbr(&buf);
        if !ret.is_valid() {
            return Err(PartitionTableError::InvalidMbr);
        }
        Ok(ret)
    }

    /// Whether the MBR carries the required trailer signature.
    pub fn is_valid(&self) -> (r: bool)
        ensures
            r == (self.signature == 0xAA55),
    {
        self.signature == Self::MBR_SIGNATURE
    }
}

} // verus!
