use tom_boot::volume::{BlockDevice, DevError, DeviceError, SeekFrom, Volume, VolumeError, BLOCK_SIZE};

/// A device whose block 0 reads as 0x42 bytes, whose other blocks fail, and
/// which refuses every write.
struct FirstBlockOnly {
    writes: usize,
}

impl BlockDevice for FirstBlockOnly {
    fn read_block(&mut self, index: usize, buf: &mut Vec<u8>) -> Result<(), DevError> {
        if index == 0 {
            for b in buf.iter_mut() {
                *b = 0x42;
            }
            Ok(())
        } else {
            Err(DevError(DeviceError::IoError))
        }
    }

    fn write_block(&mut self, _index: usize, buf: &[u8]) -> Result<(), DevError> {
        assert_eq!(buf.len(), BLOCK_SIZE);
        self.writes += 1;
        Err(DevError(DeviceError::IoError))
    }
}

#[test]
fn custom_device_read_failure_surfaces() {
    let mut vol = Volume::new(0, 3, FirstBlockOnly { writes: 0 }).unwrap();
    let mut buf = vec![0u8; 2];
    assert_eq!(vol.read(&mut buf), Ok(2));
    assert_eq!(buf, vec![0x42, 0x42]);
    assert_eq!(vol.seek(SeekFrom::Start(600)), Err(VolumeError::Device(DevError(DeviceError::IoError))));
    assert_eq!(vol.flush(), Ok(()));
    assert_eq!(vol.into_device().writes, 0);
}

#[test]
fn custom_device_write_failure_surfaces() {
    let mut vol = Volume::new(0, 1, FirstBlockOnly { writes: 0 }).unwrap();
    assert_eq!(vol.write(&[1u8, 2]), Ok(2));
    assert_eq!(vol.flush(), Err(VolumeError::Device(DevError(DeviceError::IoError))));
    assert_eq!(vol.into_device().writes, 1);
}
