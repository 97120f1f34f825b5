use tom_boot::mem_device::MemDevice;
use tom_boot::volume::{DevError, DeviceError, SeekFrom, Volume, VolumeError};

/// A window of three blocks over a device that has only two.
fn short_device_volume() -> Volume<MemDevice> {
    Volume::new(0, 3, MemDevice::new(2)).unwrap()
}

#[test]
fn failed_block_load_makes_reads_fail() {
    let mut vol = short_device_volume();
    let mut buf = vec![0xFFu8; 2];
    assert_eq!(vol.read(&mut buf), Ok(2));
    assert_eq!(buf, vec![0, 0]);
    assert_eq!(vol.seek(SeekFrom::Start(1100)), Err(VolumeError::Device(DevError(DeviceError::IoError))));
    assert_eq!(vol.read(&mut buf), Err(VolumeError::Device(DevError(DeviceError::IoError))));
    assert_eq!(vol.write(&[1u8]), Err(VolumeError::Device(DevError(DeviceError::IoError))));
    let mut empty: Vec<u8> = Vec::new();
    assert_eq!(vol.read(&mut empty), Ok(0));
    // Nothing is resident, so a flush writes nothing.
    assert_eq!(vol.flush(), Ok(()));
}

#[test]
fn seek_back_after_failed_load_recovers() {
    let mut vol = short_device_volume();
    assert!(vol.seek(SeekFrom::Start(1024)).is_err());
    assert_eq!(vol.seek(SeekFrom::Start(5)), Ok(5));
    let mut buf = vec![0xFFu8; 1];
    assert_eq!(vol.read(&mut buf), Ok(1));
    assert_eq!(buf, vec![0]);
}
