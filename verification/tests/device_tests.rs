use wakatiwai_fs::device::BlockRead;
use wakatiwai_fs::device::DeviceError;
use wakatiwai_fs::device::DiskReader;
use wakatiwai_fs::device::MemDisk;

fn image(n: usize) -> Vec<u8> {
    (0..n).map(|i| (i % 251) as u8).collect()
}

#[test]
fn in_memory_device_reports_its_geometry() {
    let disk = MemDisk::new(image(8192), 42, 512, 1024);
    assert_eq!(disk.media_id(), 42);
    assert_eq!(disk.sector_size(), 512);
    assert_eq!(disk.block_size(), 1024);
    assert_eq!(disk.last_block(), 7);
}

#[test]
fn reads_return_the_exact_range() {
    let disk = MemDisk::new(image(4096), 1, 512, 512);
    let v = disk.read_bytes(100, 16).unwrap();
    assert_eq!(v, image(4096)[100..116].to_vec());
    assert_eq!(disk.read_bytes(4095, 1).unwrap(), vec![image(4096)[4095]]);
    assert_eq!(disk.read_bytes(0, 0).unwrap(), Vec::<u8>::new());
}

#[test]
fn out_of_range_reads_fail() {
    let disk = MemDisk::new(image(4096), 1, 512, 512);
    assert_eq!(disk.read_bytes(4096, 1).unwrap_err(), DeviceError::OutOfRange);
    assert_eq!(disk.read_bytes(4000, 97).unwrap_err(), DeviceError::OutOfRange);
    assert_eq!(disk.read_bytes(u64::MAX, 1).unwrap_err(), DeviceError::OutOfRange);
}

#[test]
fn positioned_reader_offsets_every_read() {
    let img = image(4096);
    let disk = MemDisk::new(img.clone(), 1, 256, 512);
    let reader = DiskReader::new(&disk, 1024);
    assert_eq!(reader.sector_size, 256);
    assert_eq!(reader.block_size, 512);
    assert_eq!(reader.read_bytes(0, 4).unwrap(), img[1024..1028].to_vec());
    assert_eq!(reader.read_sector(1).unwrap(), img[1280..1536].to_vec());
    assert_eq!(reader.read_sectors(0, 2).unwrap(), img[1024..1536].to_vec());
    assert_eq!(reader.read_block(1).unwrap(), img[1536..2048].to_vec());
    assert_eq!(reader.read_blocks(0, 2).unwrap(), img[1024..2048].to_vec());
    // The partitioned view ends with the device.
    assert!(reader.read_bytes(3072, 1).is_err());
}
