//! The GUID Partition Table: both header copies, both partition-entry arrays,
//! and the protective MBR, cross-checked against each other before any
//! partition offset is trusted.

use vstd::prelude::*;

use crate::bytes::copy_range;
use crate::bytes::le128;
use crate::bytes::le128_at;
use crate::bytes::le16;
use crate::bytes::le16_at;
use crate::bytes::le32;
use crate::bytes::le32_at;
use crate::bytes::le64;
use crate::bytes::le64_at;
use crate::checksum::crc32;
use crate::checksum::crc32_of;
use crate::device::BlockRead;
use crate::device::DiskReader;
use crate::mbr::mbr_matches;
use crate::mbr::mbr_sig_ok;
use crate::mbr::MBR;
use crate::mbr::PartitionTableError;

verus! {

/// The `"EFI PART"` signature, read as a little-endian `u64`.
pub const GPT_SIGNATURE: u64 = 0x5452415020494645;

/// A GPT header copy.
#[derive(Clone, Copy, Debug)]
pub struct GPTHeader {
    /// Identifies an EFI-compatible partition table header; must hold
    /// [`GPT_SIGNATURE`] (the bytes `"EFI PART"`).
    pub signature: u64,
    /// The revision number of this header.
    pub revision: u32,
    /// Size in bytes of the GPT header.
    pub header_size: u32,
    /// CRC-32 checksum of the header, computed with this field zeroed.
    pub header_crc32: u32,
    /// The LBA that holds this header copy.
    pub header_lba: u64,
    /// LBA of the other header copy.
    pub alt_header_lba: u64,
    /// The first logical block usable by a partition.
    pub first_usable_block: u64,
    /// The last logical block usable by a partition.
    pub last_usable_block: u64,
    /// GUID identifying the disk, as 16 little-endian bytes.
    pub disk_guid: u128,
    /// First LBA of the partition-entry array this header points to.
    pub entry_array_starting_lba: u64,
    /// Number of entries in the partition-entry array.
    pub entry_count: u32,
    /// Size in bytes of one partition entry.
    pub entry_size: u32,
    /// CRC-32 of the partition-entry array.
    pub entry_array_crc32: u32,
}

/// A GPT partition entry.
#[derive(Clone, Debug)]
pub struct GPTEntry {
    /// The purpose and type of the partition; zero means the entry is unused.
    pub type_guid: u128,
    /// GUID unique to this partition.
    pub partition_guid: u128,
    /// First LBA of the partition.
    pub starting_lba: u64,
    /// Last LBA of the partition.
    pub ending_lba: u64,
    /// Attribute bits.
    pub attributes: u64,
    /// The partition's name: 36 UTF-16 code units, null-padded.
    pub name: Vec<u16>,
}

/// The `bs`-byte block number `lba` of device contents `c`.
pub open spec fn block_at(c: Seq<u8>, bs: int, lba: int) -> Seq<u8> {
    c.subrange(lba * bs, lba * bs + bs)
}

/// `h` holds exactly the fields laid out in the first 92 bytes of `b`.
pub open spec fn header_matches(h: GPTHeader, b: Seq<u8>) -> bool {
    &&& h.signature == le64_at(b, 0)
    &&& h.revision == le32_at(b, 8)
    &&& h.header_size == le32_at(b, 12)
    &&& h.header_crc32 == le32_at(b, 16)
    &&& h.header_lba == le64_at(b, 24)
    &&& h.alt_header_lba == le64_at(b, 32)
    &&& h.first_usable_block == le64_at(b, 40)
    &&& h.last_usable_block == le64_at(b, 48)
    &&& h.disk_guid == le128_at(b, 56)
    &&& h.entry_array_starting_lba == le64_at(b, 72)
    &&& h.entry_count == le32_at(b, 80)
    &&& h.entry_size == le32_at(b, 84)
    &&& h.entry_array_crc32 == le32_at(b, 88)
}

/// The bytes whose CRC-32 must equal the header's stored checksum: the first
/// `header_size` bytes of the header's block, with the checksum field
/// (offsets 16 to 19) zeroed.
pub open spec fn header_crc_payload(b: Seq<u8>) -> Seq<u8> {
    Seq::new(
        le32_at(b, 12) as nat,
        |i: int|
            if 16 <= i < 20 {
                0u8
            } else {
                b[i]
            },
    )
}

/// The structural field checks a header must pass: signature, header size,
/// entry-size alignment.
pub open spec fn header_fields_ok(h: GPTHeader) -> bool {
    &&& h.signature == GPT_SIGNATURE
    &&& h.header_size >= 92
    &&& h.entry_size > 0
    &&& h.entry_size as int % 128 == 0
}

/// A header block is valid: it decodes to a header whose field checks pass,
/// whose declared size fits in the block, and whose CRC-32 over the
/// zero-checksummed payload equals the stored checksum.
pub open spec fn header_valid(b: Seq<u8>) -> bool {
    &&& b.len() >= 92
    &&& le64_at(b, 0) == GPT_SIGNATURE
    &&& le32_at(b, 12) >= 92
    &&& le32_at(b, 12) <= b.len()
    &&& le32_at(b, 84) > 0
    &&& le32_at(b, 84) as int % 128 == 0
    &&& crc32_of(header_crc_payload(b)) == le32_at(b, 16)
}

/// Decodes a GPT header from the first 92 bytes of `buf`.
fn decode_gpt_header(buf: &Vec<u8>) -> (h: GPTHeader)
    requires
        buf.len() >= 92,
    ensures
        header_matches(h, buf@),
{
    GPTHeader {
        signature: le64(buf, 0),
        revision: le32(buf, 8),
        header_size: le32(buf, 12),
        header_crc32: le32(buf, 16),
        header_lba: le64(buf, 24),
        alt_header_lba: le64(buf, 32),
        first_usable_block: le64(buf, 40),
        last_usable_block: le64(buf, 48),
        disk_guid: le128(buf, 56),
        entry_array_starting_lba: le64(buf, 72),
        entry_count: le32(buf, 80),
        entry_size: le32(buf, 84),
        entry_array_crc32: le32(buf, 88),
    }
}

impl GPTHeader {
    /// Checks this header, decoded from the block `block`, against
    /// [`header_valid`]: signature, sizes, alignment and the CRC-32 over the
    /// block's bytes with the checksum field zeroed.
    fn is_valid(&self, block: &Vec<u8>) -> (r: bool)
        requires
            header_matches(*self, block@),
        ensures
            r == header_valid(block@),
    {
        if self.signature != GPT_SIGNATURE {
            return false;
        }
        if self.header_size < 92 {
            return false;
        }
        if (self.header_size as usize) > block.len() {
            return false;
        }
        if self.entry_size == 0 || self.entry_size % 128 != 0 {
            return false;
        }
        let mut payload = copy_range(block, 0, self.header_size as usize);
        payload[16] = 0;
        payload[17] = 0;
        payload[18] = 0;
        payload[19] = 0;
        proof {
            assert(payload@ =~= header_crc_payload(block@));
        }
        crc32(&payload) == self.header_crc32
    }
}

/// `e` holds exactly the fields of the partition entry at offset `off` of
/// `s` (only the 128 defined bytes are decoded).
pub open spec fn entry_matches(e: GPTEntry, s: Seq<u8>, off: int) -> bool {
    &&& e.type_guid == le128_at(s, off)
    &&& e.partition_guid == le128_at(s, off + 16)
    &&& e.starting_lba == le64_at(s, off + 32)
    &&& e.ending_lba == le64_at(s, off + 40)
    &&& e.attributes == le64_at(s, off + 48)
    &&& e.name@.len() == 36
    &&& forall|i: int| 0 <= i < 36 ==> e.name@[i] == le16_at(s, off + 56 + 2 * i)
}

/// The decoded content of the partition entry at offset `off` of `s`, as one
/// comparable value.
pub open spec fn entry_model(s: Seq<u8>, off: int) -> (u128, u128, u64, u64, u64, Seq<u16>) {
    (
        le128_at(s, off),
        le128_at(s, off + 16),
        le64_at(s, off + 32),
        le64_at(s, off + 40),
        le64_at(s, off + 48),
        Seq::new(36, |i: int| le16_at(s, off + 56 + 2 * i)),
    )
}

/// Two decoded entries are the same in every field.
pub open spec fn entry_same(a: GPTEntry, b: GPTEntry) -> bool {
    &&& a.type_guid == b.type_guid
    &&& a.partition_guid == b.partition_guid
    &&& a.starting_lba == b.starting_lba
    &&& a.ending_lba == b.ending_lba
    &&& a.attributes == b.attributes
    &&& a.name@ == b.name@
}

/// Number of `bs`-byte blocks that hold the entry array the header block `b`
/// declares: `entry_count * entry_size` bytes, rounded up to whole blocks.
pub open spec fn entry_array_blocks(b: Seq<u8>, bs: int) -> int {
    ((le32_at(b, 80) * le32_at(b, 84)) + bs - 1) / bs
}

/// The entry array the header block `b` declares lies within the device
/// contents `c`.
pub open spec fn entry_array_in_range(c: Seq<u8>, b: Seq<u8>, bs: int) -> bool {
    le64_at(b, 72) * bs + entry_array_blocks(b, bs) * bs <= c.len()
}

/// `es` are exactly the `entry_count` entries of the array that the header
/// block `b` declares, decoded from the device contents `c`.
pub open spec fn entries_match(es: Seq<GPTEntry>, c: Seq<u8>, b: Seq<u8>, bs: int) -> bool {
    &&& es.len() == le32_at(b, 80)
    &&& forall|i: int|
        0 <= i < es.len() ==> entry_matches(
            #[trigger] es[i],
            c,
            le64_at(b, 72) * bs + i * le32_at(b, 84),
        )
}

/// Decodes the partition entry at offset `off` of `buf`.
fn decode_gpt_entry(buf: &Vec<u8>, off: usize) -> (e: GPTEntry)
    requires
        off + 128 <= buf.len(),
    ensures
        entry_matches(e, buf@, off as int),
{
    let mut name: Vec<u16> = Vec::new();
    let mut j: usize = 0;
    while j < 36
        invariant
            j <= 36,
            off + 128 <= buf.len(),
            name@.len() == j,
            forall|i: int| 0 <= i < j ==> name@[i] == le16_at(buf@, off + 56 + 2 * i),
        decreases 36 - j,
    {
        name.push(le16(buf, off + 56 + 2 * j));
        j = j + 1;
    }
    GPTEntry {
        type_guid: le128(buf, off),
        partition_guid: le128(buf, off + 16),
        starting_lba: le64(buf, off + 32),
        ending_lba: le64(buf, off + 40),
        attributes: le64(buf, off + 48),
        name,
    }
}

/// Compares two decoded partition entries field by field.
fn gpt_entries_equal(a: &GPTEntry, b: &GPTEntry) -> (r: bool)
    ensures
        r == entry_same(*a, *b),
{
    if !(a.type_guid == b.type_guid && a.partition_guid == b.partition_guid && a.starting_lba
        == b.starting_lba && a.ending_lba == b.ending_lba && a.attributes == b.attributes) {
        return false;
    }
    if a.name.len() != b.name.len() {
        return false;
    }
    let mut i: usize = 0;
    while i < a.name.len()
        invariant
            i <= a.name@.len(),
            a.name@.len() == b.name@.len(),
            forall|k: int| 0 <= k < i ==> a.name@[k] == b.name@[k],
        decreases a.name@.len() - i,
    {
        if a.name[i] != b.name[i] {
            return false;
        }
        i = i + 1;
    }
    proof {
        assert(a.name@ =~= b.name@);
    }
    true
}

impl GPTHeader {
    /// Reads and decodes the partition-entry array this header points to.
    fn get_entries<R: BlockRead>(&self, reader: &DiskReader<R>, Ghost(b): Ghost<Seq<u8>>) -> (r:
        Result<Vec<GPTEntry>, PartitionTableError>)
        requires
            reader.wf(),
            header_matches(*self, b),
            self.entry_size >= 128,
        ensures
            r matches Ok(es) ==> entry_array_in_range(reader.contents(), b, reader.block_size as int)
                && entries_match(es@, reader.contents(), b, reader.block_size as int),
            reader.reliable() ==> (r is Ok <==> entry_array_in_range(
                reader.contents(),
                b,
                reader.block_size as int,
            )),
            r matches Err(e) ==> e matches PartitionTableError::Device(_),
    {
        let bs = reader.block_size as u64;
        let count = self.entry_count as u64;
        let esize = self.entry_size as u64;
        proof {
            assert(count * esize <= 0xffffffffu64 * 0xffffffffu64) by (nonlinear_arith)
                requires
                    count <= 0xffffffffu64,
                    esize <= 0xffffffffu64,
            ;
        }
        let array_bytes = count * esize;
        let nblocks = (array_bytes + (bs - 1)) / bs;
        proof {
            vstd::arithmetic::div_mod::lemma_fundamental_div_mod(
                array_bytes as int + (bs - 1),
                bs as int,
            );
            vstd::arithmetic::div_mod::lemma_mod_bound(array_bytes as int + (bs - 1), bs as int);
            vstd::arithmetic::mul::lemma_mul_is_commutative(bs as int, nblocks as int);
            assert(nblocks * bs >= array_bytes);
        }
        let blocks_fit: bool = nblocks <= usize::MAX as u64;
        if !blocks_fit {
            proof {
                assert(nblocks * bs >= nblocks) by (nonlinear_arith)
                    requires
                        bs >= 1,
                        nblocks >= 0,
                ;
            }
            return Err(PartitionTableError::Device(crate::device::DeviceError::OutOfRange));
        }
        let buf = match reader.read_blocks(self.entry_array_starting_lba, nblocks as usize) {
            Ok(ok) => ok,
            Err(err) => {
                return Err(PartitionTableError::Device(err));
            },
        };
        let mut ret: Vec<GPTEntry> = Vec::new();
        let mut i: usize = 0;
        proof {
            vstd::std_specs::vec::axiom_spec_len(&buf);
        }
        while i < self.entry_count as usize
            invariant
                reader.wf(),
                header_matches(*self, b),
                self.entry_size >= 128,
                i <= self.entry_count,
                buf@.len() >= self.entry_count * self.entry_size,
                buf@.len() <= usize::MAX,
                ret@.len() == i,
                forall|k: int|
                    0 <= k < i ==> entry_matches(
                        #[trigger] ret@[k],
                        buf@,
                        k * self.entry_size as int,
                    ),
            decreases self.entry_count - i,
        {
            proof {
                assert((i + 1) * self.entry_size <= self.entry_count * self.entry_size)
                    by (nonlinear_arith)
                    requires
                        i + 1 <= self.entry_count,
                        self.entry_size >= 0,
                ;
                assert(i * self.entry_size + self.entry_size == (i + 1) * self.entry_size)
                    by (nonlinear_arith);
            }
            let e = decode_gpt_entry(&buf, i * (self.entry_size as usize));
            ret.push(e);
            i = i + 1;
        }
        proof {
            let c = reader.contents();
            let bsi = reader.block_size as int;
            let lba = le64_at(b, 72) as int;
            assert forall|k: int| 0 <= k < ret@.len() implies entry_matches(
                #[trigger] ret@[k],
                c,
                lba * bsi + k * le32_at(b, 84),
            ) by {
                assert(entry_matches(ret@[k], buf@, k * self.entry_size as int));
                assert((k + 1) * self.entry_size <= self.entry_count * self.entry_size)
                    by (nonlinear_arith)
                    requires
                        k + 1 <= self.entry_count as int,
                        self.entry_size >= 0,
                ;
                assert(k * self.entry_size as int + self.entry_size == (k + 1)
                    * self.entry_size) by (nonlinear_arith);
                lemma_entry_shift(
                    ret@[k],
                    buf@,
                    c,
                    lba * bsi,
                    k * self.entry_size as int,
                );
            }
        }
        Ok(ret)
    }
}

/// An entry decoded from `buf` equals the entry decoded from `c` at the same
/// offset shifted by `base`, when `buf` is the slice of `c` that starts at
/// `base`.
proof fn lemma_entry_shift(e: GPTEntry, buf: Seq<u8>, c: Seq<u8>, base: int, off: int)
    requires
        entry_matches(e, buf, off),
        0 <= base,
        0 <= off,
        off + 128 <= buf.len(),
        base + buf.len() <= c.len(),
        forall|i: int| 0 <= i < buf.len() ==> buf[i] == c[base + i],
    ensures
        entry_matches(e, c, base + off),
{
    assert forall|i: int| 0 <= i < 36 implies e.name@[i] == le16_at(c, base + off + 56 + 2 * i) by {
        assert(e.name@[i] == le16_at(buf, off + 56 + 2 * i));
    }
}

/// A positive multiple of a positive number is at least that number.
proof fn lemma_positive_multiple_ge(x: int, m: int)
    requires
        x > 0,
        m > 0,
        x % m == 0,
    ensures
        x >= m,
{
    vstd::arithmetic::div_mod::lemma_fundamental_div_mod(x, m);
    let q = x / m;
    if q <= 0 {
        assert(m * q <= 0) by (nonlinear_arith)
            requires
                m > 0,
                q <= 0,
        ;
        assert(false);
    }
    assert(m * q >= m) by (nonlinear_arith)
        requires
            m > 0,
            q >= 1,
    ;
}

/// An MBR partition record that is zero in every decoded field.
pub open spec fn zero_entry(e: crate::mbr::MBRPartitionEntry) -> bool {
    &&& e.attributes == 0
    &&& e.starting_chs@ == seq![0u8, 0u8, 0u8]
    &&& e.partition_type == 0
    &&& e.ending_chs@ == seq![0u8, 0u8, 0u8]
    &&& e.starting_lba == 0
    &&& e.sectors == 0
}

/// The protective-MBR invariant on a decoded MBR: record 0 carries type
/// `0xEE`, starting LBA 1 and the fixed CHS sentinel, and records 1 to 3 are
/// all zero.
pub open spec fn protective_of(m: MBR) -> bool {
    &&& m.entries[0].attributes == 0
    &&& m.entries[0].starting_chs@ == seq![0u8, 2u8, 0u8]
    &&& m.entries[0].partition_type == 0xEE
    &&& m.entries[0].starting_lba == 1
    &&& forall|j: int| 1 <= j < 4 ==> zero_entry(#[trigger] m.entries[j])
}

/// The 16-byte partition record at offset `off` of `s` is zero in every
/// decoded field.
pub open spec fn zero_record_bytes(s: Seq<u8>, off: int) -> bool {
    &&& s[off] == 0
    &&& seq![s[off + 1], s[off + 2], s[off + 3]] == seq![0u8, 0u8, 0u8]
    &&& s[off + 4] == 0
    &&& seq![s[off + 5], s[off + 6], s[off + 7]] == seq![0u8, 0u8, 0u8]
    &&& le32_at(s, off + 8) == 0
    &&& le32_at(s, off + 12) == 0
}

/// The protective-MBR invariant, stated over the raw bytes of sector 0.
pub open spec fn mbr_protective_bytes_ok(s: Seq<u8>) -> bool {
    &&& s[446] == 0
    &&& seq![s[447], s[448], s[449]] == seq![0u8, 2u8, 0u8]
    &&& s[450] == 0xEE
    &&& le32_at(s, 454) == 1
    &&& zero_record_bytes(s, 462)
    &&& zero_record_bytes(s, 478)
    &&& zero_record_bytes(s, 494)
}

/// Entry `i` of the array that header block `b1` declares decodes to the
/// same value as entry `i` of the array that `b2` declares.
pub open spec fn entry_models_agree(c: Seq<u8>, b1: Seq<u8>, b2: Seq<u8>, bs: int, i: int) -> bool {
    entry_model(c, le64_at(b1, 72) * bs + i * le32_at(b1, 84)) == entry_model(
        c,
        le64_at(b2, 72) * bs + i * le32_at(b2, 84),
    )
}

/// The primary and alternate entry arrays, as the two header blocks declare
/// them, decode to the same entries.
pub open spec fn entry_arrays_equal(c: Seq<u8>, b1: Seq<u8>, b2: Seq<u8>, bs: int) -> bool {
    &&& le32_at(b1, 80) == le32_at(b2, 80)
    &&& forall|i: int| 0 <= i < le32_at(b1, 80) ==> entry_models_agree(c, b1, b2, bs, i)
}

/// Checks an MBR partition record for being all zero.
fn check_zero_entry(e: &crate::mbr::MBRPartitionEntry) -> (r: bool)
    ensures
        r == zero_entry(*e),
{
    let r = e.attributes == 0 && e.starting_chs[0] == 0 && e.starting_chs[1] == 0
        && e.starting_chs[2] == 0 && e.partition_type == 0 && e.ending_chs[0] == 0
        && e.ending_chs[1] == 0 && e.ending_chs[2] == 0 && e.starting_lba == 0 && e.sectors == 0;
    proof {
        if r {
            assert(e.starting_chs@ =~= seq![0u8, 0u8, 0u8]);
            assert(e.ending_chs@ =~= seq![0u8, 0u8, 0u8]);
        } else {
            if e.starting_chs@ == seq![0u8, 0u8, 0u8] {
                assert(e.starting_chs@[0] == 0 && e.starting_chs@[1] == 0 && e.starting_chs@[2]
                    == 0);
            }
            if e.ending_chs@ == seq![0u8, 0u8, 0u8] {
                assert(e.ending_chs@[0] == 0 && e.ending_chs@[1] == 0 && e.ending_chs@[2] == 0);
            }
        }
    }
    r
}

/// The GUID Partition Table: the protective MBR, both header copies and both
/// entry arrays.
#[derive(Debug)]
pub struct GPT {
    /// Protective MBR.
    pub pmbr: MBR,
    /// Primary header.
    pub header: GPTHeader,
    /// Entry array of the primary header.
    pub entries: Vec<GPTEntry>,
    /// Entry array of the alternate header.
    pub alt_entries: Vec<GPTEntry>,
    /// Alternate header.
    pub alt_header: GPTHeader,
}

/// The checks on an assembled GPT value: protective MBR, both headers' field
/// checks, and element-wise identical entry arrays.
pub open spec fn gpt_struct_valid(g: GPT) -> bool {
    &&& protective_of(g.pmbr)
    &&& header_fields_ok(g.header)
    &&& header_fields_ok(g.alt_header)
    &&& g.entries@.len() == g.alt_entries@.len()
    &&& forall|i: int| 0 <= i < g.entries@.len() ==> entry_same(#[trigger] g.entries@[i], g.alt_entries@[i])
}

/// The whole on-disk structure is a valid GPT: MBR signature and protective
/// invariant, both header copies valid (signature, sizes, CRC-32), entry
/// arrays within the device, and the two arrays element-wise identical.
pub open spec fn gpt_on_disk_valid(c: Seq<u8>, bs: int, lb: int) -> bool {
    &&& gpt_stage_entries(c, bs, lb)
    &&& mbr_protective_bytes_ok(c)
    &&& entry_arrays_equal(c, block_at(c, bs, 1), block_at(c, bs, lb), bs)
}

/// The MBR read and check succeed: sector 0 is readable, at least 512 bytes
/// long, and carries the trailer signature.
pub open spec fn gpt_stage_mbr(c: Seq<u8>, bs: int) -> bool {
    &&& 512 <= bs
    &&& bs <= c.len()
    &&& mbr_sig_ok(c)
}

/// The MBR stage and the primary header's read and check succeed.
pub open spec fn gpt_stage_hdr1(c: Seq<u8>, bs: int) -> bool {
    &&& gpt_stage_mbr(c, bs)
    &&& 2 * bs <= c.len()
    &&& header_valid(block_at(c, bs, 1))
}

/// The previous stages and the alternate header's read and check succeed.
pub open spec fn gpt_stage_hdr2(c: Seq<u8>, bs: int, lb: int) -> bool {
    &&& gpt_stage_hdr1(c, bs)
    &&& lb * bs + bs <= c.len()
    &&& header_valid(block_at(c, bs, lb))
}

/// The previous stages succeed and both entry arrays lie within the device.
pub open spec fn gpt_stage_entries(c: Seq<u8>, bs: int, lb: int) -> bool {
    &&& gpt_stage_hdr2(c, bs, lb)
    &&& entry_array_in_range(c, block_at(c, bs, 1), bs)
    &&& entry_array_in_range(c, block_at(c, bs, lb), bs)
}

impl GPTHeader {
    /// Checks the field-level conditions: signature, header size and
    /// entry-size alignment.
    fn fields_valid(&self) -> (r: bool)
        ensures
            r == header_fields_ok(*self),
    {
        self.signature == GPT_SIGNATURE && self.header_size >= 92 && self.entry_size > 0
            && self.entry_size % 128 == 0
    }
}

impl GPT {
    /// Checks the assembled table: protective MBR, both headers' field
    /// checks, and element-wise identical entry arrays.
    pub fn is_valid(&self) -> (r: bool)
        ensures
            r == gpt_struct_valid(*self),
    {
        if !self.is_mbr_protective() {
            return false;
        }
        if !self.header.fields_valid() || !self.alt_header.fields_valid() {
            return false;
        }
        if self.entries.len() != self.alt_entries.len() {
            return false;
        }
        let mut i: usize = 0;
        while i < self.entries.len()
            invariant
                i <= self.entries@.len(),
                self.entries@.len() == self.alt_entries@.len(),
                forall|k: int|
                    0 <= k < i ==> entry_same(#[trigger] self.entries@[k], self.alt_entries@[k]),
            decreases self.entries@.len() - i,
        {
            if !gpt_entries_equal(&self.entries[i], &self.alt_entries[i]) {
                return false;
            }
            i = i + 1;
        }
        true
    }

    /// Checks that the protective MBR meets the GPT-protective format.
    fn is_mbr_protective(&self) -> (r: bool)
        ensures
            r == protective_of(self.pmbr),
    {
        let e0 = self.pmbr.entries[0];
        let head_ok = e0.attributes == 0 && e0.starting_chs[0] == 0 && e0.starting_chs[1] == 2
            && e0.starting_chs[2] == 0 && e0.partition_type == 0xEE && e0.starting_lba == 1;
        proof {
            if head_ok {
                assert(e0.starting_chs@ =~= seq![0u8, 2u8, 0u8]);
            } else {
                if e0.starting_chs@ == seq![0u8, 2u8, 0u8] {
                    assert(e0.starting_chs@[0] == 0 && e0.starting_chs@[1] == 2
                        && e0.starting_chs@[2] == 0);
                }
            }
        }
        if !head_ok {
            return false;
        }
        let zeros_ok = check_zero_entry(&self.pmbr.entries[1]) && check_zero_entry(
            &self.pmbr.entries[2],
        ) && check_zero_entry(&self.pmbr.entries[3]);
        proof {
            if zeros_ok {
                assert forall|j: int| 1 <= j < 4 implies zero_entry(
                    #[trigger] self.pmbr.entries[j],
                ) by {
                    assert(j == 1 || j == 2 || j == 3);
                }
            }
        }
        zeros_ok
    }

    /// Reads the GPT from a disk: the protective MBR, both header copies and
    /// both entry arrays, each checked as the on-disk format requires. On a
    /// reliable device the read succeeds exactly when the whole structure is
    /// valid.
    pub fn read_gpt<R: BlockRead>(reader: &DiskReader<R>) -> (r: Result<GPT, PartitionTableError>)
        requires
            reader.wf(),
        ensures
            r matches Ok(g) ==> {
                let c = reader.contents();
                let bs = reader.block_size as int;
                let lb = reader.last_block as int;
                &&& gpt_on_disk_valid(c, bs, lb)
                &&& mbr_matches(g.pmbr, c)
                &&& header_matches(g.header, block_at(c, bs, 1))
                &&& header_matches(g.alt_header, block_at(c, bs, lb))
                &&& entries_match(g.entries@, c, block_at(c, bs, 1), bs)
                &&& entries_match(g.alt_entries@, c, block_at(c, bs, lb), bs)
                &&& gpt_struct_valid(g)
            },
            reader.reliable() ==> (r is Ok <==> gpt_on_disk_valid(
                reader.contents(),
                reader.block_size as int,
                reader.last_block as int,
            )),
            reader.reliable() ==> {
                let c = reader.contents();
                let bs = reader.block_size as int;
                let lb = reader.last_block as int;
                &&& (r == Err::<GPT, PartitionTableError>(PartitionTableError::InvalidMbr) <==> bs
                    <= c.len() && !gpt_stage_mbr(c, bs))
                &&& (r == Err::<GPT, PartitionTableError>(PartitionTableError::InvalidHeader) <==> (
                (gpt_stage_mbr(c, bs) && 2 * bs <= c.len() && !header_valid(block_at(c, bs, 1)))
                    || (gpt_stage_hdr1(c, bs) && lb * bs + bs <= c.len() && !header_valid(
                    block_at(c, bs, lb),
                ))))
                &&& ((r matches Err(e) && e matches PartitionTableError::Device(_)) <==> (bs
                    > c.len() || (gpt_stage_mbr(c, bs) && 2 * bs > c.len()) || (gpt_stage_hdr1(
                    c,
                    bs,
                ) && lb * bs + bs > c.len()) || (gpt_stage_hdr2(c, bs, lb)
                    && !entry_array_in_range(c, block_at(c, bs, 1), bs)) || (gpt_stage_hdr2(
                    c,
                    bs,
                    lb,
                ) && entry_array_in_range(c, block_at(c, bs, 1), bs) && !entry_array_in_range(
                    c,
                    block_at(c, bs, lb),
                    bs,
                ))))
                &&& (r == Err::<GPT, PartitionTableError>(PartitionTableError::InvalidGpt) <==> (
                gpt_stage_entries(c, bs, lb) && !(mbr_protective_bytes_ok(c) && entry_arrays_equal(
                    c,
                    block_at(c, bs, 1),
                    block_at(c, bs, lb),
                    bs,
                ))))
            },
    {
        let ghost c = reader.contents();
        let ghost bs = reader.block_size as int;
        let ghost lb = reader.last_block as int;

        // Protective MBR.
        let pmbr = match MBR::read_mbr(reader) {
            Ok(ok) => ok,
            Err(err) => {
                return Err(err);
            },
        };

        // Primary header, from logical block 1.
        let block1 = match reader.read_block(1) {
            Ok(ok) => ok,
            Err(err) => {
                return Err(PartitionTableError::Device(err));
            },
        };
        let header = decode_gpt_header(&block1);
        if !header.is_valid(&block1) {
            return Err(PartitionTableError::InvalidHeader);
        }

        // Alternate header, from the device's last logical block.
        let blockl = match reader.read_block(reader.last_block) {
            Ok(ok) => ok,
            Err(err) => {
                return Err(PartitionTableError::Device(err));
            },
        };
        let alt_header = decode_gpt_header(&blockl);
        if !alt_header.is_valid(&blockl) {
            return Err(PartitionTableError::InvalidHeader);
        }

        proof {
            lemma_positive_multiple_ge(header.entry_size as int, 128);
            lemma_positive_multiple_ge(alt_header.entry_size as int, 128);
        }

        // Both entry arrays.
        let entries = match header.get_entries(reader, Ghost(block1@)) {
            Ok(ok) => ok,
            Err(err) => {
                return Err(err);
            },
        };
        let alt_entries = match alt_header.get_entries(reader, Ghost(blockl@)) {
            Ok(ok) => ok,
            Err(err) => {
                return Err(err);
            },
        };

        let ret = GPT { pmbr, header, entries, alt_entries, alt_header };

        proof {
            lemma_gpt_struct_link(ret, c, bs, lb);
        }
        if !ret.is_valid() {
            return Err(PartitionTableError::InvalidGpt);
        }
        Ok(ret)
    }
}

/// Links the protective-MBR check on a decoded MBR to the statement over
/// the raw bytes it was decoded from.
proof fn lemma_protective_link(m: MBR, c: Seq<u8>)
    requires
        mbr_matches(m, c),
    ensures
        protective_of(m) <==> mbr_protective_bytes_ok(c),
{
    assert(crate::mbr::entry_matches(m.entries[0], c, 446));
    assert(crate::mbr::entry_matches(m.entries[1], c, 462));
    assert(crate::mbr::entry_matches(m.entries[2], c, 478));
    assert(crate::mbr::entry_matches(m.entries[3], c, 494));
    if protective_of(m) {
        assert(zero_entry(m.entries[1]) && zero_entry(m.entries[2]) && zero_entry(m.entries[3]));
        assert(mbr_protective_bytes_ok(c));
    }
    if mbr_protective_bytes_ok(c) {
        assert(zero_entry(m.entries[1]) && zero_entry(m.entries[2]) && zero_entry(m.entries[3]));
        assert forall|j: int| 1 <= j < 4 implies zero_entry(#[trigger] m.entries[j]) by {
            assert(j == 1 || j == 2 || j == 3);
        }
        assert(protective_of(m));
    }
}

/// Links element-wise sameness of the two decoded entry arrays to equality
/// of the byte models the arrays were decoded from.
proof fn lemma_arrays_link(
    es1: Seq<GPTEntry>,
    es2: Seq<GPTEntry>,
    c: Seq<u8>,
    b1: Seq<u8>,
    b2: Seq<u8>,
    bs: int,
)
    requires
        entries_match(es1, c, b1, bs),
        entries_match(es2, c, b2, bs),
    ensures
        (es1.len() == es2.len() && (forall|i: int|
            0 <= i < es1.len() ==> entry_same(#[trigger] es1[i], es2[i]))) <==> entry_arrays_equal(
            c,
            b1,
            b2,
            bs,
        ),
{
    let cnt1 = le32_at(b1, 80) as int;
    if es1.len() == es2.len() {
        assert forall|i: int| 0 <= i < cnt1 implies (entry_same(#[trigger] es1[i], es2[i])
            <==> entry_models_agree(c, b1, b2, bs, i)) by {
            lemma_entry_model_link(
                es1[i],
                es2[i],
                c,
                le64_at(b1, 72) * bs + i * le32_at(b1, 84),
                le64_at(b2, 72) * bs + i * le32_at(b2, 84),
            );
        }
        if forall|i: int| 0 <= i < es1.len() ==> entry_same(#[trigger] es1[i], es2[i]) {
            assert forall|i: int| 0 <= i < cnt1 implies entry_models_agree(c, b1, b2, bs, i) by {
                assert(entry_same(es1[i], es2[i]));
            }
        }
        if entry_arrays_equal(c, b1, b2, bs) {
            assert forall|i: int| 0 <= i < es1.len() implies entry_same(
                #[trigger] es1[i],
                es2[i],
            ) by {
                assert(entry_models_agree(c, b1, b2, bs, i));
            }
        }
    }
}

/// Links the checks on an assembled GPT value to the on-disk statements: when
/// every piece of `g` was decoded from `c`, the struct-level validity check
/// decides exactly the protective invariant and the entry-array equality.
proof fn lemma_gpt_struct_link(g: GPT, c: Seq<u8>, bs: int, lb: int)
    requires
        mbr_matches(g.pmbr, c),
        header_matches(g.header, block_at(c, bs, 1)),
        header_matches(g.alt_header, block_at(c, bs, lb)),
        header_valid(block_at(c, bs, 1)),
        header_valid(block_at(c, bs, lb)),
        entries_match(g.entries@, c, block_at(c, bs, 1), bs),
        entries_match(g.alt_entries@, c, block_at(c, bs, lb), bs),
    ensures
        gpt_struct_valid(g) <==> (mbr_protective_bytes_ok(c) && entry_arrays_equal(
            c,
            block_at(c, bs, 1),
            block_at(c, bs, lb),
            bs,
        )),
{
    let b1 = block_at(c, bs, 1);
    let b2 = block_at(c, bs, lb);
    lemma_protective_link(g.pmbr, c);
    lemma_arrays_link(g.entries@, g.alt_entries@, c, b1, b2, bs);
    assert(header_fields_ok(g.header));
    assert(header_fields_ok(g.alt_header));
}

/// Two decoded entries are the same exactly when the byte models they were
/// decoded from are equal.
proof fn lemma_entry_model_link(e1: GPTEntry, e2: GPTEntry, c: Seq<u8>, off1: int, off2: int)
    requires
        entry_matches(e1, c, off1),
        entry_matches(e2, c, off2),
    ensures
        entry_same(e1, e2) <==> entry_model(c, off1) == entry_model(c, off2),
{
    let m1 = entry_model(c, off1);
    let m2 = entry_model(c, off2);
    assert(e1.name@ =~= m1.5);
    assert(e2.name@ =~= m2.5);
    if entry_same(e1, e2) {
        assert(m1.5 =~= m2.5);
        assert(m1 == m2);
    }
}

} // verus!
