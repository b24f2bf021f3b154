//! Read-only storage core of a firmware-stage boot loader: a partition-table
//! reader for MBR/GPT disks and a FAT12/16/32 file-system driver that together
//! resolve an absolute path on a raw block device to the file's contents.
//!
//! Device access goes through the [`device::BlockRead`] capability; everything
//! decoded from disk bytes is specified against the device's byte contents.
//! Beside the storage core, [`editor`] holds the cursor, viewport and buffer
//! state of the loader's small configuration-file editor.

pub mod bootsector;
pub mod bytes;
pub mod checksum;
pub mod device;
pub mod directory;
pub mod editor;
pub mod fat;
pub mod fs;
pub mod gpt;
pub mod mbr;
pub mod text;
