//! Block-device access.
//!
//! [`BlockRead`] is the capability the whole core runs on: a read-only device
//! whose byte contents, geometry and reliability are given by spec functions,
//! and whose one executable operation is a bounded byte-range read.
//! [`MemDisk`] is the crate's own in-memory implementation; a firmware- or
//! file-backed device can implement the same trait outside the crate.
//! [`DiskReader`] wraps a device together with a base offset (the start of a
//! partition) and offers the derived sector and block reads.

use vstd::prelude::*;

use crate::bytes::copy_range;

verus! {

/// Failure of a device read.
#[derive(Clone, Copy, Debug, PartialEq, Eq, Structural)]
pub enum DeviceError {
    /// The requested range lies (partly) outside the device.
    OutOfRange,
    /// The transfer itself failed.
    TransferFailed,
}

/// A read-only block device.
///
/// `contents()` is the full byte image of the device; every successful read
/// returns exactly the requested slice of it. On a `reliable()` device a read
/// that lies within the device never fails. Geometry is fixed per device.
pub trait BlockRead: Sized {
    /// The device's full byte contents.
    spec fn contents(&self) -> Seq<u8>;

    /// The medium's identifier.
    spec fn spec_media_id(&self) -> u32;

    /// Bytes per sector.
    spec fn spec_sector_size(&self) -> u32;

    /// Bytes per logical block.
    spec fn spec_block_size(&self) -> u32;

    /// Number of the last logical block.
    spec fn spec_last_block(&self) -> u64;

    /// Whether every in-bounds read is guaranteed to succeed.
    spec fn reliable(&self) -> bool;

    fn media_id(&self) -> (r: u32)
        ensures
            r == self.spec_media_id(),
    ;

    fn sector_size(&self) -> (r: u32)
        ensures
            r == self.spec_sector_size(),
    ;

    fn block_size(&self) -> (r: u32)
        ensures
            r == self.spec_block_size(),
    ;

    fn last_block(&self) -> (r: u64)
        ensures
            r == self.spec_last_block(),
    ;

    /// Reads `count` bytes starting at byte `offset` of the device.
    fn read_bytes(&self, offset: u64, count: usize) -> (r: Result<Vec<u8>, DeviceError>)
        ensures
            r matches Ok(v) ==> offset + count <= self.contents().len() && v@
                == self.contents().subrange(offset as int, offset + count),
            self.reliable() && offset + count <= self.contents().len() ==> r is Ok,
    ;
}

/// An in-memory block device over a byte image. Reads never fail except out of
/// bounds, so the device is `reliable()`.
pub struct MemDisk {
    image: Vec<u8>,
    media_id: u32,
    sector_size: u32,
    block_size: u32,
}

impl MemDisk {
    /// Builds a device over `image` with the given geometry.
    pub fn new(image: Vec<u8>, media_id: u32, sector_size: u32, block_size: u32) -> (r: MemDisk)
        requires
            sector_size >= 1,
            block_size >= 1,
            image@.len() >= block_size,
            image@.len() as int % (block_size as int) == 0,
        ensures
            r.contents() == image@,
            r.spec_media_id() == media_id,
            r.spec_sector_size() == sector_size,
            r.spec_block_size() == block_size,
            (r.spec_last_block() + 1) * block_size == image@.len(),
            r.reliable(),
    {
        proof {
            vstd::std_specs::vec::axiom_spec_len(&image);
            let len = image@.len() as int;
            let bs = block_size as int;
            let q = len / bs;
            vstd::arithmetic::div_mod::lemma_div_is_ordered(bs, len, bs);
            vstd::arithmetic::div_mod::lemma_div_by_self(bs);
            vstd::arithmetic::div_mod::lemma_fundamental_div_mod(len, bs);
            assert(q <= bs * q) by (nonlinear_arith)
                requires
                    1 <= bs,
                    1 <= q,
            ;
            assert(len == bs * q);
            assert(1 <= q <= len);
            assert(q - 1 <= u64::MAX);
        }
        let r = MemDisk { image, media_id, sector_size, block_size };
        proof {
            let len = r.image@.len() as int;
            let bs = block_size as int;
            let q = len / bs;
            assert(r.spec_last_block() == q - 1);
            assert((q - 1 + 1) * bs == len) by (nonlinear_arith)
                requires
                    len == bs * q,
            ;
        }
        r
    }
}

impl BlockRead for MemDisk {
    closed spec fn contents(&self) -> Seq<u8> {
        self.image@
    }

    closed spec fn spec_media_id(&self) -> u32 {
        self.media_id
    }

    closed spec fn spec_sector_size(&self) -> u32 {
        self.sector_size
    }

    closed spec fn spec_block_size(&self) -> u32 {
        self.block_size
    }

    closed spec fn spec_last_block(&self) -> u64 {
        if self.block_size >= 1 && self.image@.len() as int / self.block_size as int >= 1 {
            ((self.image@.len() as int / self.block_size as int) - 1) as u64
        } else {
            0
        }
    }

    closed spec fn reliable(&self) -> bool {
        true
    }

    fn media_id(&self) -> (r: u32) {
        self.media_id
    }

    fn sector_size(&self) -> (r: u32) {
        self.sector_size
    }

    fn block_size(&self) -> (r: u32) {
        self.block_size
    }

    fn last_block(&self) -> (r: u64) {
        if self.block_size >= 1 && self.image.len() / (self.block_size as usize) >= 1 {
            (self.image.len() / (self.block_size as usize) - 1) as u64
        } else {
            0
        }
    }

    fn read_bytes(&self, offset: u64, count: usize) -> (r: Result<Vec<u8>, DeviceError>) {
        let len = self.image.len();
        if offset <= len as u64 && count as u64 <= len as u64 - offset {
            Ok(copy_range(&self.image, offset as usize, count))
        } else {
            Err(DeviceError::OutOfRange)
        }
    }
}

/// A positioned view of a block device: all reads are relative to
/// `abs_offset`, the byte address where the partition (or the whole disk,
/// for offset 0) begins. Geometry is queried once at construction.
pub struct DiskReader<'disk, R: BlockRead> {
    /// The device read through.
    pub backing: &'disk R,
    /// Byte address of this reader's origin on the underlying device.
    pub abs_offset: u64,
    /// The medium's identifier.
    pub media_id: u32,
    /// Bytes per sector.
    pub sector_size: u32,
    /// Bytes per logical block.
    pub block_size: u32,
    /// Number of the device's last logical block.
    pub last_block: u64,
}

impl<'disk, R: BlockRead> DiskReader<'disk, R> {
    /// The bytes this reader can address: the device contents from
    /// `abs_offset` on.
    pub open spec fn contents(&self) -> Seq<u8> {
        if self.abs_offset <= self.backing.contents().len() {
            self.backing.contents().subrange(
                self.abs_offset as int,
                self.backing.contents().len() as int,
            )
        } else {
            Seq::empty()
        }
    }

    /// Whether in-bounds reads through this reader always succeed.
    pub open spec fn reliable(&self) -> bool {
        self.backing.reliable()
    }

    /// The cached geometry agrees with the device and is usable: sectors and
    /// blocks are nonempty and the device is addressable.
    pub open spec fn wf(&self) -> bool {
        &&& self.media_id == self.backing.spec_media_id()
        &&& self.sector_size == self.backing.spec_sector_size()
        &&& self.block_size == self.backing.spec_block_size()
        &&& self.last_block == self.backing.spec_last_block()
        &&& self.sector_size >= 1
        &&& self.block_size >= 1
        &&& self.abs_offset <= self.backing.contents().len()
        &&& self.backing.contents().len() <= usize::MAX
    }

    /// Positions a reader at byte `abs_offset` of `backing`.
    pub fn new(backing: &'disk R, abs_offset: u64) -> (r: DiskReader<'disk, R>)
        requires
            backing.spec_sector_size() >= 1,
            backing.spec_block_size() >= 1,
            abs_offset <= backing.contents().len(),
            backing.contents().len() <= usize::MAX,
        ensures
            r.wf(),
            r.abs_offset == abs_offset,
            r.sector_size == backing.spec_sector_size(),
            r.block_size == backing.spec_block_size(),
            r.last_block == backing.spec_last_block(),
            r.media_id == backing.spec_media_id(),
            r.contents() == backing.contents().subrange(
                abs_offset as int,
                backing.contents().len() as int,
            ),
            r.reliable() == backing.reliable(),
    {
        DiskReader {
            backing,
            abs_offset,
            media_id: backing.media_id(),
            sector_size: backing.sector_size(),
            block_size: backing.block_size(),
            last_block: backing.last_block(),
        }
    }

    /// Reads `count` bytes starting at byte `offset` of the reader's view.
    pub fn read_bytes(&self, offset: u64, count: usize) -> (r: Result<Vec<u8>, DeviceError>)
        requires
            self.wf(),
        ensures
            r matches Ok(v) ==> offset + count <= self.contents().len() && v@
                == self.contents().subrange(offset as int, offset + count),
            self.reliable() && offset + count <= self.contents().len() ==> r is Ok,
    {
        match self.abs_offset.checked_add(offset) {
            Some(a) => {
                let r = self.backing.read_bytes(a, count);
                proof {
                    if r is Ok {
                        assert(self.backing.contents().subrange(a as int, a + count)
                            =~= self.contents().subrange(offset as int, offset + count));
                    }
                }
                r
            },
            None => Err(DeviceError::OutOfRange),
        }
    }

    /// Reads sector `sector` of the reader's view.
    pub fn read_sector(&self, sector: u64) -> (r: Result<Vec<u8>, DeviceError>)
        requires
            self.wf(),
        ensures
            r matches Ok(v) ==> sector * self.sector_size + self.sector_size
                <= self.contents().len() && v@ == self.contents().subrange(
                sector * self.sector_size,
                sector * self.sector_size + self.sector_size,
            ),
            self.reliable() && sector * self.sector_size + self.sector_size
                <= self.contents().len() ==> r is Ok,
    {
        self.read_sectors(sector, 1)
    }

    /// Reads `count` sectors starting at sector `sector` of the reader's view.
    pub fn read_sectors(&self, sector: u64, count: usize) -> (r: Result<Vec<u8>, DeviceError>)
        requires
            self.wf(),
        ensures
            r matches Ok(v) ==> sector * self.sector_size + count * self.sector_size
                <= self.contents().len() && v@ == self.contents().subrange(
                sector * self.sector_size,
                sector * self.sector_size + count * self.sector_size,
            ),
            self.reliable() && sector * self.sector_size + count * self.sector_size
                <= self.contents().len() ==> r is Ok,
    {
        let ss = self.sector_size as u64;
        match (sector.checked_mul(ss), (count as u64).checked_mul(ss)) {
            (Some(off), Some(nbytes)) => {
                if nbytes <= usize::MAX as u64 {
                    self.read_bytes(off, nbytes as usize)
                } else {
                    Err(DeviceError::OutOfRange)
                }
            },
            _ => Err(DeviceError::OutOfRange),
        }
    }

    /// Reads logical block `lba` of the reader's view.
    pub fn read_block(&self, lba: u64) -> (r: Result<Vec<u8>, DeviceError>)
        requires
            self.wf(),
        ensures
            r matches Ok(v) ==> lba * self.block_size + self.block_size <= self.contents().len()
                && v@ == self.contents().subrange(
                lba * self.block_size,
                lba * self.block_size + self.block_size,
            ),
            self.reliable() && lba * self.block_size + self.block_size <= self.contents().len()
                ==> r is Ok,
    {
        self.read_blocks(lba, 1)
    }

    /// Reads `count` logical blocks starting at block `lba` of the reader's
    /// view.
    pub fn read_blocks(&self, lba: u64, count: usize) -> (r: Result<Vec<u8>, DeviceError>)
        requires
            self.wf(),
        ensures
            r matches Ok(v) ==> lba * self.block_size + count * self.block_size
                <= self.contents().len() && v@ == self.contents().subrange(
                lba * self.block_size,
                lba * self.block_size + count * self.block_size,
            ),
            self.reliable() && lba * self.block_size + count * self.block_size
                <= self.contents().len() ==> r is Ok,
    {
        let bs = self.block_size as u64;
        match (lba.checked_mul(bs), (count as u64).checked_mul(bs)) {
            (Some(off), Some(nbytes)) => {
                if nbytes <= usize::MAX as u64 {
                    self.read_bytes(off, nbytes as usize)
                } else {
                    Err(DeviceError::OutOfRange)
                }
            },
            _ => Err(DeviceError::OutOfRange),
        }
    }
}

} // verus!
