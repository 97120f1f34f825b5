use tom_boot::boot::{
    find_kernel, find_root_partition, load, load_kernel, BootError, DirEntry, PartitionEntry, RootPartition,
    KERNEL_NAME, ROOT_PARTITION_TYPE,
};
use tom_boot::mem_device::MemDevice;
use tom_boot::timer::{Vf2Ticker, TIME_BASE};
use tom_boot::volume::{BlockDevice, Volume, BLOCK_SIZE};
use tom_boot::{init, BootEnv, LogLevel, SDIO_BASE, UART_BASE};

const OTHER_TYPE: u128 = 0x0fc63daf_8483_4772_8e79_3d69d8477de4;

fn entry(name: &str, is_file: bool, size: u64, data_offset: u64) -> DirEntry {
    DirEntry { name: name.to_string(), is_file, size, data_offset }
}

fn table(root: PartitionEntry) -> Vec<PartitionEntry> {
    let mut parts: Vec<PartitionEntry> = (0..4)
        .map(|i| PartitionEntry { type_guid: OTHER_TYPE, start_lba: 100 + i, end_lba: 101 + i })
        .collect();
    parts.push(root);
    parts
}

/// Three blocks: block 0 holds a directory entry for the kernel, block 1 its
/// ten bytes, block 2 other data.
fn kernel_device() -> MemDevice {
    let mut dev = MemDevice::new(3);
    let mut dir = vec![0u8; BLOCK_SIZE];
    dir[0..11].copy_from_slice(b"TOM     OS ");
    dir[28] = 10;
    dev.write_block(0, &dir).unwrap();
    let mut data = vec![0u8; BLOCK_SIZE];
    for i in 0..BLOCK_SIZE {
        data[i] = (i as u8).wrapping_mul(3).wrapping_add(1);
    }
    dev.write_block(1, &data).unwrap();
    for i in 0..BLOCK_SIZE {
        data[i] = (i as u8).wrapping_mul(5).wrapping_add(2);
    }
    dev.write_block(2, &data).unwrap();
    dev
}

#[test]
fn load_kernel_copies_file_bytes() {
    let dev = kernel_device();
    let expected = dev.block(1)[0..10].to_vec();
    let parts = table(PartitionEntry { type_guid: ROOT_PARTITION_TYPE, start_lba: 0, end_lba: 3 });
    let entries = vec![entry("TOM.OS", true, 10, 512)];
    let mut region = vec![0x55u8; 32];
    assert_eq!(load_kernel(dev, &parts, &entries, &mut region), Ok(10));
    assert_eq!(region[0..10].to_vec(), expected);
    assert!(region[10..].iter().all(|b| *b == 0x55));
}

#[test]
fn load_kernel_without_kernel_leaves_region() {
    let parts = table(PartitionEntry { type_guid: ROOT_PARTITION_TYPE, start_lba: 0, end_lba: 3 });
    let entries = vec![entry("README.TXT", true, 10, 512), entry("BOOT", false, 0, 0)];
    let mut region = vec![0x55u8; 32];
    assert_eq!(load_kernel(kernel_device(), &parts, &entries, &mut region), Ok(0));
    assert_eq!(region, vec![0x55u8; 32]);
}

#[test]
fn load_kernel_needs_fifth_partition() {
    let parts: Vec<PartitionEntry> =
        (0..4).map(|i| PartitionEntry { type_guid: ROOT_PARTITION_TYPE, start_lba: i, end_lba: i + 1 }).collect();
    let mut region = vec![0u8; 16];
    assert_eq!(
        load_kernel(kernel_device(), &parts, &vec![entry("TOM.OS", true, 10, 512)], &mut region),
        Err(BootError::NotFound)
    );
}

#[test]
fn load_kernel_rejects_reversed_partition() {
    let parts = table(PartitionEntry { type_guid: ROOT_PARTITION_TYPE, start_lba: 3, end_lba: 1 });
    let mut region = vec![0u8; 16];
    assert_eq!(
        load_kernel(kernel_device(), &parts, &vec![entry("TOM.OS", true, 10, 512)], &mut region),
        Err(BootError::BadPartition)
    );
}

#[test]
fn load_kernel_reports_missing_device_block() {
    let parts = table(PartitionEntry { type_guid: ROOT_PARTITION_TYPE, start_lba: 7, end_lba: 9 });
    let mut region = vec![0u8; 16];
    assert!(matches!(
        load_kernel(kernel_device(), &parts, &vec![entry("TOM.OS", true, 10, 512)], &mut region),
        Err(BootError::Device(_))
    ));
}

#[test]
fn root_partition_chosen_by_position_not_type() {
    let parts = table(PartitionEntry { type_guid: OTHER_TYPE, start_lba: 2048, end_lba: 4096 });
    assert_eq!(
        find_root_partition(&parts),
        Ok(RootPartition { index: 4, start_lba: 2048, end_lba: 4096, type_matches: false })
    );
}

#[test]
fn root_partition_reports_type_match() {
    let parts = table(PartitionEntry { type_guid: ROOT_PARTITION_TYPE, start_lba: 2048, end_lba: 4096 });
    assert_eq!(
        find_root_partition(&parts),
        Ok(RootPartition { index: 4, start_lba: 2048, end_lba: 4096, type_matches: true })
    );
}

#[test]
fn root_partition_missing() {
    assert_eq!(find_root_partition(&Vec::new()), Err(BootError::NotFound));
}

#[test]
fn root_type_guid_literal() {
    let text = format!("{:032x}", ROOT_PARTITION_TYPE);
    let dashed = format!("{}-{}-{}-{}-{}", &text[0..8], &text[8..12], &text[12..16], &text[16..20], &text[20..32]);
    assert_eq!(dashed, "ebd0a0a2-b9e5-4433-87c0-68b6b72699c7");
}

#[test]
fn find_kernel_skips_directories_and_takes_first() {
    let entries = vec![
        entry("TOM.OS", false, 0, 0),
        entry("tom.os", true, 5, 0),
        entry("TOM.OS", true, 7, 0),
        entry("TOM.OS", true, 9, 0),
    ];
    assert_eq!(find_kernel(&entries), Some(2));
    assert_eq!(find_kernel(&vec![entry("TOM.OSX", true, 1, 0)]), None);
    assert_eq!(KERNEL_NAME, "TOM.OS");
}

#[test]
fn load_without_kernel_returns_zero() {
    let mut vol = Volume::new(0, 3, kernel_device()).unwrap();
    let mut region = vec![0x77u8; 8];
    assert_eq!(load(&mut vol, &vec![entry("OTHER.BIN", true, 4, 512)], &mut region), Ok(0));
    assert_eq!(region, vec![0x77u8; 8]);
}

#[test]
fn load_too_large_for_region() {
    let mut vol = Volume::new(0, 3, kernel_device()).unwrap();
    let mut region = vec![0u8; 4];
    assert_eq!(load(&mut vol, &vec![entry("TOM.OS", true, 10, 512)], &mut region), Err(BootError::TooLarge));
    assert_eq!(region, vec![0u8; 4]);
}

#[test]
fn load_short_read_past_window() {
    let mut vol = Volume::new(0, 3, kernel_device()).unwrap();
    let mut region = vec![0u8; 600];
    assert_eq!(load(&mut vol, &vec![entry("TOM.OS", true, 600, 1000)], &mut region), Err(BootError::ShortRead));
}

#[test]
fn load_spanning_blocks() {
    let dev = kernel_device();
    let b1 = dev.block(1);
    let b2 = dev.block(2);
    let mut vol = Volume::new(0, 3, dev).unwrap();
    let mut region = vec![0xFFu8; 640];
    assert_eq!(load(&mut vol, &vec![entry("TOM.OS", true, 600, 900)], &mut region), Ok(600));
    assert_eq!(region[0..124].to_vec(), b1[388..512].to_vec());
    assert_eq!(region[124..600].to_vec(), b2[0..476].to_vec());
    assert_eq!(region[600..640].to_vec(), vec![0xFFu8; 40]);
}

#[test]
fn ticker_conversions() {
    let t = Vf2Ticker::new();
    assert_eq!(TIME_BASE, 1_500_000_000);
    assert_eq!(t.tick_to_secs(3_000_000_000), 2);
    assert_eq!(t.tick_to_millis(1_500_000), 1);
    assert_eq!(t.tick_to_micros(1_500), 1);
    assert_eq!(t.tick_to_nanos(3), 2);
    assert_eq!(t.secs_to_tick(2), 3_000_000_000);
    assert_eq!(t.millis_to_tick(1), 1_500_000);
    assert_eq!(t.micros_to_tick(1), 1_500);
    assert_eq!(t.nanos_to_tick(2), 3);
    assert_eq!(t.nanos_to_tick(u64::MAX), (u64::MAX as u128) * 3 / 2);
}

#[test]
fn init_plans_environment() {
    assert_eq!(
        init(0x8020_0000),
        BootEnv { uart_base: UART_BASE, sdio_base: SDIO_BASE, log_level: LogLevel::Debug, heap_start: 0x8020_0000 }
    );
}
