//! Boot orchestration: choosing the root partition and loading the kernel
//! image from the root directory into memory.
use vstd::prelude::*;
use crate::volume::{window_byte, BlockDevice, DevError, Volume, VolumeError, BLOCK_SIZE};

verus! {

/// Type GUID of the root partition, `ebd0a0a2-b9e5-4433-87c0-68b6b72699c7`,
/// read as one number in the order of its textual form.
pub const ROOT_PARTITION_TYPE: u128 = 0xebd0a0a2_b9e5_4433_87c0_68b6b72699c7;

/// Position in the partition table of the root partition (the fifth entry).
pub const ROOT_PARTITION_INDEX: usize = 4;

/// Name of the kernel image in the root directory.
pub const KERNEL_NAME: &'static str = "TOM.OS";

/// Why the boot sequence stopped.
#[derive(Debug, Clone, Copy, PartialEq, Eq)]
pub enum BootError {
    /// The block device reported a failure.
    Device(DevError),
    /// The expected partition does not exist.
    NotFound,
    /// The file's data could not be delivered in full.
    ShortRead,
    /// The file does not fit the load region.
    TooLarge,
    /// The root partition's block range cannot be opened as a window.
    BadPartition,
}

/// One entry of the partition table.
#[derive(Debug, Clone, Copy, PartialEq, Eq)]
pub struct PartitionEntry {
    pub type_guid: u128,
    pub start_lba: u64,
    pub end_lba: u64,
}

/// The partition chosen as root.
#[derive(Debug, Clone, Copy, PartialEq, Eq)]
pub struct RootPartition {
    pub index: usize,
    pub start_lba: u64,
    pub end_lba: u64,
    /// Whether its type GUID is the expected root type.
    pub type_matches: bool,
}

/// Picks the root partition: the entry at `ROOT_PARTITION_INDEX`, whatever
/// its type. Whether the type is the expected one is reported beside it.
pub fn find_root_partition(entries: &Vec<PartitionEntry>) -> (r: Result<RootPartition, BootError>)
    ensures
        entries@.len() > ROOT_PARTITION_INDEX <==> r is Ok,
        r is Err ==> r == Err::<RootPartition, BootError>(BootError::NotFound),
        r is Ok ==> ({
            let e = entries@[ROOT_PARTITION_INDEX as int];
            r->Ok_0 == (RootPartition {
                index: ROOT_PARTITION_INDEX,
                start_lba: e.start_lba,
                end_lba: e.end_lba,
                type_matches: e.type_guid == ROOT_PARTITION_TYPE,
            })
        }),
{
    if entries.len() <= ROOT_PARTITION_INDEX {
        return Err(BootError::NotFound);
    }
    let e = entries[ROOT_PARTITION_INDEX];
    Ok(RootPartition {
        index: ROOT_PARTITION_INDEX,
        start_lba: e.start_lba,
        end_lba: e.end_lba,
        type_matches: e.type_guid == ROOT_PARTITION_TYPE,
    })
}

/// One entry of the root directory, as the file-system reader lists it.
#[derive(Debug, PartialEq, Eq)]
pub struct DirEntry {
    pub name: String,
    pub is_file: bool,
    /// Size in bytes of the file.
    pub size: u64,
    /// Where the file's bytes begin in the partition window. `load` reads
    /// them as one run from there.
    pub data_offset: u64,
}

/// The entry is the kernel image: a file named exactly `KERNEL_NAME`.
pub open spec fn is_kernel_entry(e: DirEntry) -> bool {
    e.is_file && e.name@ == KERNEL_NAME@
}

/// Entry `i` is the first kernel entry of `entries`.
pub open spec fn first_kernel(entries: Seq<DirEntry>, i: int) -> bool {
    &&& 0 <= i < entries.len()
    &&& is_kernel_entry(entries[i])
    &&& forall|j: int| 0 <= j < i ==> !is_kernel_entry(#[trigger] entries[j])
}

/// No entry of `entries` is the kernel.
pub open spec fn no_kernel(entries: Seq<DirEntry>) -> bool {
    forall|j: int| 0 <= j < entries.len() ==> !is_kernel_entry(#[trigger] entries[j])
}

/// Scans the entries in order and returns the index of the first kernel
/// entry; directories are skipped.
pub fn find_kernel(entries: &Vec<DirEntry>) -> (r: Option<usize>)
    ensures
        match r {
            Some(i) => first_kernel(entries@, i as int),
            None => no_kernel(entries@),
        },
{
    let kernel: String = KERNEL_NAME.to_owned();
    let mut i: usize = 0;
    while i < entries.len()
        invariant
            i <= entries@.len(),
            kernel@ == KERNEL_NAME@,
            forall|j: int| 0 <= j < i ==> !is_kernel_entry(#[trigger] entries@[j]),
        decreases entries@.len() - i,
    {
        if entries[i].is_file && entries[i].name == kernel {
            return Some(i);
        }
        i += 1;
    }
    None
}

/// Loads the kernel image listed in `entries` into the front of `region` and
/// returns its size, or returns 0 and leaves `region` alone when the directory
/// holds no kernel.
pub fn load<D: BlockDevice>(vol: &mut Volume<D>, entries: &Vec<DirEntry>, region: &mut Vec<u8>) -> (r: Result<usize, BootError>)
    requires
        old(vol).wf(),
        old(vol).coherent(),
    ensures
        final(vol).wf(),
        final(vol).coherent(),
        final(vol).blocks() == old(vol).blocks(),
        final(vol).device().reliable() == old(vol).device().reliable(),
        final(region)@.len() == old(region)@.len(),
        no_kernel(entries@) ==> r == Ok::<usize, BootError>(0) && final(region)@ == old(region)@,
        r is Err ==> r == Err::<usize, BootError>(BootError::TooLarge) || r == Err::<usize, BootError>(BootError::ShortRead)
            || r matches Err(BootError::Device(_)),
        r == Err::<usize, BootError>(BootError::TooLarge) ==> exists|i: int|
            #[trigger] first_kernel(entries@, i) && entries@[i].size > old(region)@.len(),
        r == Err::<usize, BootError>(BootError::ShortRead) ==> exists|i: int|
            #[trigger] first_kernel(entries@, i) && entries@[i].data_offset + entries@[i].size > old(vol).total_len(),
        forall|i: int| #[trigger] first_kernel(entries@, i) ==> {
            let e = entries@[i];
            &&& (r == Err::<usize, BootError>(BootError::TooLarge) <==> e.size > old(region)@.len())
            &&& e.size > old(region)@.len() ==> final(region)@ == old(region)@
            &&& e.size <= old(region)@.len() && old(vol).read_owed(e.data_offset as int, e.size as int)
                ==> r == Ok::<usize, BootError>(e.size as usize)
            &&& r is Ok ==> {
                &&& r == Ok::<usize, BootError>(e.size as usize)
                &&& forall|k: int| 0 <= k < e.size ==> final(region)@[k] == #[trigger] old(vol).stream_byte(e.data_offset + k)
                &&& forall|k: int| e.size <= k < old(region)@.len() ==> final(region)@[k] == old(region)@[k]
            }
            &&& e.size <= old(region)@.len() && e.data_offset + e.size > old(vol).total_len() ==> r is Err
            &&& r == Err::<usize, BootError>(BootError::ShortRead) ==> e.data_offset + e.size > old(vol).total_len()
            &&& r is Err ==> r == Err::<usize, BootError>(BootError::TooLarge) || r == Err::<usize, BootError>(BootError::ShortRead)
                || r matches Err(BootError::Device(_))
        },
{
    let i = match find_kernel(entries) {
        Some(i) => i,
        None => {
            return Ok(0);
        },
    };
    proof {
        assert(first_kernel(entries@, i as int));
    }
    let size = entries[i].size;
    if size > region.len() as u64 {
        return Err(BootError::TooLarge);
    }
    match vol.read_exact_at(entries[i].data_offset, region, size as usize) {
        Ok(()) => Ok(size as usize),
        Err(VolumeError::InvalidInput) => Err(BootError::ShortRead),
        Err(VolumeError::Device(e)) => Err(BootError::Device(e)),
    }
}

/// The partition's block range cannot be opened as a window: it is reversed,
/// ends past the largest `usize`, or is too long for its byte length to fit
/// a `usize`.
pub open spec fn bad_window(p: PartitionEntry) -> bool {
    p.end_lba < p.start_lba || p.end_lba > usize::MAX || p.end_lba - p.start_lba > (usize::MAX / BLOCK_SIZE) as int
}

/// Opens a volume over the root partition of `dev` and loads the kernel image
/// listed in its root directory `entries` into the front of `region`.
/// Returns the kernel's size, or 0 when the directory holds no kernel.
pub fn load_kernel<D: BlockDevice>(
    dev: D,
    partitions: &Vec<PartitionEntry>,
    entries: &Vec<DirEntry>,
    region: &mut Vec<u8>,
) -> (r: Result<usize, BootError>)
    ensures
        final(region)@.len() == old(region)@.len(),
        (r == Err::<usize, BootError>(BootError::NotFound)) == (partitions@.len() <= ROOT_PARTITION_INDEX),
        partitions@.len() <= ROOT_PARTITION_INDEX ==> final(region)@ == old(region)@,
        partitions@.len() > ROOT_PARTITION_INDEX ==> ({
            let p = partitions@[ROOT_PARTITION_INDEX as int];
            let total = (p.end_lba - p.start_lba) * BLOCK_SIZE;
            &&& (r == Err::<usize, BootError>(BootError::BadPartition)) == bad_window(p)
            &&& !bad_window(p) && p.start_lba >= dev.blocks().len() ==> (r matches Err(BootError::Device(_)))
            &&& r == Err::<usize, BootError>(BootError::TooLarge) ==> exists|i: int|
                #[trigger] first_kernel(entries@, i) && entries@[i].size > old(region)@.len()
            &&& r == Err::<usize, BootError>(BootError::ShortRead) ==> exists|i: int|
                #[trigger] first_kernel(entries@, i) && entries@[i].data_offset + entries@[i].size > total
            &&& r is Ok && no_kernel(entries@) ==> r == Ok::<usize, BootError>(0) && final(region)@ == old(region)@
            &&& forall|i: int| #[trigger] first_kernel(entries@, i) && r is Ok ==> {
                &&& r == Ok::<usize, BootError>(entries@[i].size as usize)
                &&& forall|k: int| 0 <= k < entries@[i].size ==> final(region)@[k]
                    == #[trigger] window_byte(dev.blocks(), p.start_lba as int, entries@[i].data_offset + k)
            }
            &&& !bad_window(p) && dev.reliable() && p.start_lba < dev.blocks().len() && p.end_lba <= dev.blocks().len()
                ==> {
                &&& no_kernel(entries@) ==> r == Ok::<usize, BootError>(0)
                &&& forall|i: int| #[trigger] first_kernel(entries@, i) && entries@[i].size <= old(region)@.len()
                    && entries@[i].data_offset + entries@[i].size <= total ==> r == Ok::<usize, BootError>(
                    entries@[i].size as usize,
                )
            }
        }),
{
    let root = match find_root_partition(partitions) {
        Ok(p) => p,
        Err(e) => {
            return Err(e);
        },
    };
    if root.end_lba < root.start_lba || root.end_lba > usize::MAX as u64 {
        return Err(BootError::BadPartition);
    }
    let mut vol = match Volume::new(root.start_lba as usize, root.end_lba as usize, dev) {
        Ok(v) => v,
        Err(VolumeError::InvalidInput) => {
            return Err(BootError::BadPartition);
        },
        Err(VolumeError::Device(e)) => {
            return Err(BootError::Device(e));
        },
    };
    let ghost v0 = vol;
    let r = load(&mut vol, entries, region);
    proof {
        assert forall|i: int| #[trigger] first_kernel(entries@, i) && r is Ok implies forall|k: int|
            0 <= k < entries@[i].size ==> region@[k] == #[trigger] window_byte(
                dev.blocks(),
                root.start_lba as int,
                entries@[i].data_offset + k,
            ) by {
            assert forall|k: int| 0 <= k < entries@[i].size implies region@[k] == #[trigger] window_byte(
                dev.blocks(),
                root.start_lba as int,
                entries@[i].data_offset + k,
            ) by {
                assert(region@[k] == v0.stream_byte(entries@[i].data_offset + k));
            }
        }
    }
    r
}

} // verus!
