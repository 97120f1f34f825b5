//! A seekable byte stream over a window of blocks of a block device, backed by
//! a single cached block.
use vstd::prelude::*;

verus! {

/// Size in bytes of every block of every device.
pub const BLOCK_SIZE: usize = 512;

/// The kind of failure a block device reports.
#[derive(Debug, Clone, Copy, PartialEq, Eq)]
pub enum DeviceError {
    IoError,
}

/// A failure reported by the underlying block device.
#[derive(Debug, Clone, Copy, PartialEq, Eq)]
pub struct DevError(pub DeviceError);

impl DevError {
    /// Device operations are never interrupted and retried.
    pub fn is_interrupted(&self) -> (r: bool)
        ensures
            !r,
    {
        false
    }

    /// The error reported when a stream ends before the expected byte count.
    pub fn new_unexpected_eof_error() -> (r: DevError)
        ensures
            r == DevError(DeviceError::IoError),
    {
        DevError(DeviceError::IoError)
    }

    /// The error reported when a write makes no progress.
    pub fn new_write_zero_error() -> (r: DevError)
        ensures
            r == DevError(DeviceError::IoError),
    {
        DevError(DeviceError::IoError)
    }
}

/// A storage device addressed in blocks of `BLOCK_SIZE` bytes.
pub trait BlockDevice {
    /// The contents of the device, block by block. A device that keeps the
    /// default tells nothing of its contents: no read of it is known to
    /// succeed.
    open spec fn blocks(&self) -> Seq<Seq<u8>> {
        Seq::empty()
    }

    /// Whether every read and write of a block that exists succeeds. A device
    /// that keeps the default promises nothing.
    open spec fn reliable(&self) -> bool {
        false
    }

    /// Reads block `index` into `buf`. Reading never changes the device.
    fn read_block(&mut self, index: usize, buf: &mut Vec<u8>) -> (r: Result<(), DevError>)
        requires
            old(buf)@.len() == BLOCK_SIZE,
        ensures
            final(self).blocks() == old(self).blocks(),
            final(self).reliable() == old(self).reliable(),
            final(buf)@.len() == BLOCK_SIZE,
            old(self).reliable() && index < old(self).blocks().len() ==> r is Ok,
            r is Ok ==> index < old(self).blocks().len() && final(buf)@ == old(self).blocks()[index as int],
    ;

    /// Writes `buf` to block `index`.
    fn write_block(&mut self, index: usize, buf: &[u8]) -> (r: Result<(), DevError>)
        requires
            buf@.len() == BLOCK_SIZE,
        ensures
            final(self).reliable() == old(self).reliable(),
            old(self).reliable() && index < old(self).blocks().len() ==> r is Ok,
            r is Ok ==> index < old(self).blocks().len() && final(self).blocks() == old(self).blocks().update(index as int, buf@),
    ;
}


/// Where a seek is measured from.
#[derive(Debug, Clone, Copy, PartialEq, Eq)]
pub enum SeekFrom {
    Start(u64),
    End(i64),
    Current(i64),
}

/// Why a volume operation failed.
#[derive(Debug, Clone, Copy, PartialEq, Eq)]
pub enum VolumeError {
    /// The block device reported a failure.
    Device(DevError),
    /// The request lies outside the partition window.
    InvalidInput,
}

/// The offset a seek asks for, before it is checked against the window.
pub open spec fn seek_target(pos: SeekFrom, current: int, total: int) -> int {
    match pos {
        SeekFrom::Start(x) => x as int,
        SeekFrom::Current(x) => current + x,
        SeekFrom::End(x) => total + x,
    }
}

/// Byte `k` of the window that begins at block `start` of a device holding
/// `blocks`.
pub open spec fn window_byte(blocks: Seq<Seq<u8>>, start: int, k: int) -> u8 {
    blocks[start + k / BLOCK_SIZE as int][k % BLOCK_SIZE as int]
}

/// `c` with the bytes from `at` on replaced by `s`.
pub open spec fn overwrite(c: Seq<u8>, at: int, s: Seq<u8>) -> Seq<u8> {
    c.subrange(0, at) + s + c.subrange(at + s.len(), c.len() as int)
}

/// A byte stream over the blocks `[start, start + count)` of a device. One
/// block is held in memory; reads and writes go to that block only, and a
/// written block reaches the device only through `flush`.
pub struct Volume<D: BlockDevice> {
    blk_dev: D,
    start_offset: usize,
    block_num: usize,
    buffer: Vec<u8>,
    blk_cursor: usize,
    byte_offset: usize,
    loaded: bool,
}

impl<D: BlockDevice> Volume<D> {
    /// The device the volume reads from and writes to.
    pub closed spec fn device(&self) -> D {
        self.blk_dev
    }

    /// First absolute block of the window.
    pub closed spec fn start_block(&self) -> int {
        self.start_offset as int
    }

    /// Number of blocks in the window.
    pub closed spec fn block_count(&self) -> int {
        self.block_num as int
    }

    /// Byte offset of the stream, relative to the start of the window.
    pub closed spec fn position(&self) -> int {
        self.byte_offset as int
    }

    /// Window-relative index of the block the buffer stands for.
    pub closed spec fn cached_index(&self) -> int {
        self.blk_cursor as int
    }

    /// Whether the buffer holds the contents of block `cached_index`. It does
    /// not after a failed block read, nor at the end of the window.
    pub closed spec fn resident(&self) -> bool {
        self.loaded
    }

    /// The in-memory block.
    pub closed spec fn cache(&self) -> Seq<u8> {
        self.buffer@
    }

    /// The buffer is one block long, the window's byte length fits a
    /// `usize`, and the position lies in or just past the cached block.
    pub open spec fn wf(&self) -> bool {
        &&& self.cache().len() == BLOCK_SIZE
        &&& 0 <= self.start_block()
        &&& 0 <= self.block_count()
        &&& self.start_block() + self.block_count() <= usize::MAX
        &&& self.block_count() <= (usize::MAX / BLOCK_SIZE) as int
        &&& 0 <= self.cached_index() <= self.block_count()
        &&& self.cached_index() * BLOCK_SIZE <= self.position() <= self.cached_index() * BLOCK_SIZE + BLOCK_SIZE
        &&& self.position() <= self.block_count() * BLOCK_SIZE
        &&& self.resident() ==> self.cached_index() < self.block_count()
    }

    /// The device promises to serve every block of the window.
    pub open spec fn reliable(&self) -> bool {
        self.device().reliable() && self.start_block() + self.block_count() <= self.blocks().len()
    }

    /// A block is in the buffer, unless the stream sits at the window's end.
    pub open spec fn settled(&self) -> bool {
        self.resident() || self.cached_index() == self.block_count()
    }

    /// The device's contents.
    pub open spec fn blocks(&self) -> Seq<Seq<u8>> {
        self.device().blocks()
    }

    /// Length in bytes of the window.
    pub open spec fn total_len(&self) -> int {
        self.block_count() * BLOCK_SIZE
    }

    /// Offset of the stream inside the cached block.
    pub open spec fn cursor(&self) -> int {
        self.position() - self.cached_index() * BLOCK_SIZE
    }

    /// Byte `k` of the window, as the device holds it.
    pub open spec fn stream_byte(&self, k: int) -> u8 {
        window_byte(self.blocks(), self.start_block(), k)
    }

    /// A read of `len` bytes from `off` that lies in the resident block, so
    /// that it needs nothing from the device.
    pub open spec fn served_from_cache(&self, off: int, len: int) -> bool {
        &&& off / BLOCK_SIZE as int == self.cached_index()
        &&& off + len <= self.total_len()
        &&& (len == 0 || (self.resident() && off % BLOCK_SIZE as int + len <= BLOCK_SIZE))
    }

    /// `read_exact_at(off, _, len)` is owed success: the bytes lie in the
    /// window, and either the cached block serves them or the device
    /// promises every block of the window.
    pub open spec fn read_owed(&self, off: int, len: int) -> bool {
        &&& 0 <= off
        &&& off + len <= self.total_len()
        &&& (self.served_from_cache(off, len) || (self.reliable() && self.settled()))
    }

    /// The buffer is a verbatim copy of the device block it stands for.
    pub open spec fn coherent(&self) -> bool {
        self.resident() ==> {
            &&& self.start_block() + self.cached_index() < self.blocks().len()
            &&& self.cache() == self.blocks()[self.start_block() + self.cached_index()]
        }
    }

    /// Everything but the position is the same in `self` and `o`.
    pub open spec fn same_but_position(&self, o: &Self) -> bool {
        &&& self.start_block() == o.start_block()
        &&& self.block_count() == o.block_count()
        &&& self.cached_index() == o.cached_index()
        &&& self.resident() == o.resident()
        &&& self.cache() == o.cache()
        &&& self.device() == o.device()
    }

    /// Window, cached block and device contents are the same in `self` and `o`.
    pub open spec fn same_window_and_block(&self, o: &Self) -> bool {
        &&& self.start_block() == o.start_block()
        &&& self.block_count() == o.block_count()
        &&& self.cached_index() == o.cached_index()
        &&& self.resident() == o.resident()
        &&& self.device() == o.device()
    }

    /// What a read into a buffer holding `ob` does: from state `o` to state
    /// `n`, leaving `nb` in the buffer and returning `r`.
    pub open spec fn read_post(o: Self, ob: Seq<u8>, n: Self, nb: Seq<u8>, r: Result<usize, VolumeError>) -> bool {
        n.wf() && if o.position() + ob.len() > o.total_len() {
            r == Err::<usize, VolumeError>(VolumeError::InvalidInput) && n == o && nb == ob
        } else if ob.len() > 0 && !o.resident() {
            r == Err::<usize, VolumeError>(VolumeError::Device(DevError(DeviceError::IoError))) && n == o
                && nb == ob
        } else {
            &&& r == Ok::<usize, VolumeError>(ob.len() as usize)
            &&& nb == o.cache().subrange(o.cursor(), o.cursor() + ob.len())
            &&& n.position() == o.position() + ob.len()
            &&& n.same_but_position(&o)
        }
    }

    /// What a write of `data` does: from state `o` to state `n`, returning `r`.
    pub open spec fn write_post(o: Self, data: Seq<u8>, n: Self, r: Result<usize, VolumeError>) -> bool {
        n.wf() && if o.position() + data.len() > o.total_len() {
            r == Err::<usize, VolumeError>(VolumeError::InvalidInput) && n == o
        } else if data.len() > 0 && !o.resident() {
            r == Err::<usize, VolumeError>(VolumeError::Device(DevError(DeviceError::IoError))) && n == o
        } else {
            &&& r == Ok::<usize, VolumeError>(data.len() as usize)
            &&& n.cache() == overwrite(o.cache(), o.cursor(), data)
            &&& n.position() == o.position() + data.len()
            &&& n.same_window_and_block(&o)
        }
    }

    /// What a flush does: from state `o` to state `n`, returning `r`.
    pub open spec fn flush_post(o: Self, n: Self, r: Result<(), VolumeError>) -> bool {
        &&& n.wf()
        &&& n.start_block() == o.start_block()
        &&& n.block_count() == o.block_count()
        &&& n.cached_index() == o.cached_index()
        &&& n.resident() == o.resident()
        &&& n.position() == o.position()
        &&& n.cache() == o.cache()
        &&& n.device().reliable() == o.device().reliable()
        &&& if !o.resident() {
            r is Ok && n.device() == o.device()
        } else {
            &&& (o.device().reliable() && o.start_block() + o.cached_index() < o.blocks().len() ==> r is Ok)
            &&& match r {
                Ok(()) => {
                    &&& o.start_block() + o.cached_index() < o.blocks().len()
                    &&& n.blocks() == o.blocks().update(o.start_block() + o.cached_index(), o.cache())
                },
                Err(e) => e is Device,
            }
        }
    }

    /// What a seek to `pos` does: from state `o` to state `n`, returning `r`.
    pub open spec fn seek_post(o: Self, pos: SeekFrom, n: Self, r: Result<u64, VolumeError>) -> bool {
        let t = seek_target(pos, o.position(), o.total_len());
        let b = t / BLOCK_SIZE as int;
        n.wf() && if t < 0 || t > o.total_len() {
            r == Err::<u64, VolumeError>(VolumeError::InvalidInput) && n == o
        } else {
            &&& n.start_block() == o.start_block()
            &&& n.block_count() == o.block_count()
            &&& n.position() == t
            &&& n.cached_index() == b
            &&& n.blocks() == o.blocks()
            &&& n.device().reliable() == o.device().reliable()
            &&& if b == o.cached_index() {
                r == Ok::<u64, VolumeError>(t as u64) && n.resident() == o.resident() && n.cache() == o.cache()
            } else if b == o.block_count() {
                r == Ok::<u64, VolumeError>(t as u64) && !n.resident()
            } else {
                &&& (o.device().reliable() && o.start_block() + b < o.blocks().len() ==> r is Ok)
                &&& match r {
                    Ok(x) => {
                        &&& x == t
                        &&& n.resident()
                        &&& o.start_block() + b < o.blocks().len()
                        &&& n.cache() == o.blocks()[o.start_block() + b]
                    },
                    Err(e) => e is Device && !n.resident(),
                }
            }
        }
    }

    /// What `new(start, end, dev)` returns.
    pub open spec fn new_post(start: int, end: int, dev: D, r: Result<Self, VolumeError>) -> bool {
        if end < start || end - start > (usize::MAX / BLOCK_SIZE) as int {
            r == Err::<Self, VolumeError>(VolumeError::InvalidInput)
        } else {
            &&& (dev.reliable() && start < dev.blocks().len() ==> r is Ok)
            &&& match r {
                Ok(v) => {
                    &&& v.wf()
                    &&& v.start_block() == start
                    &&& v.block_count() == end - start
                    &&& v.position() == 0
                    &&& v.cached_index() == 0
                    &&& v.resident() == (start < end)
                    &&& v.blocks() == dev.blocks()
                    &&& v.device().reliable() == dev.reliable()
                    &&& start < dev.blocks().len()
                    &&& v.cache() == dev.blocks()[start]
                },
                Err(e) => e is Device,
            }
        }
    }

    /// Opens a volume over the blocks `[start_lba, end_lba)` of `blk_dev` and
    /// reads block `start_lba` into the buffer; the block counts as resident
    /// only when the window is not empty. The window is refused when it is
    /// reversed or its byte length does not fit a `usize`.
    pub fn new(start_lba: usize, end_lba: usize, blk_dev: D) -> (r: Result<Self, VolumeError>)
        ensures
            Self::new_post(start_lba as int, end_lba as int, blk_dev, r),
            r is Ok ==> r->Ok_0.coherent(),
    {
        if end_lba < start_lba || end_lba - start_lba > usize::MAX / BLOCK_SIZE {
            return Err(VolumeError::InvalidInput);
        }
        let mut dev = blk_dev;
        let mut buffer: Vec<u8> = vec![0u8; BLOCK_SIZE];
        let block_num: usize = end_lba - start_lba;
        match dev.read_block(start_lba, &mut buffer) {
            Ok(()) => {},
            Err(e) => {
                return Err(VolumeError::Device(e));
            },
        }
        let loaded = block_num > 0;
        Ok(Volume {
            blk_dev: dev,
            start_offset: start_lba,
            block_num,
            buffer,
            blk_cursor: 0,
            byte_offset: 0,
            loaded,
        })
    }

    fn total_bytes(&self) -> (r: usize)
        requires
            self.wf(),
        ensures
            r == self.total_len(),
    {
        proof {
            vstd::arithmetic::div_mod::lemma_fundamental_div_mod(usize::MAX as int, BLOCK_SIZE as int);
        }
        self.block_num * BLOCK_SIZE
    }

    /// Copies the bytes at the stream position into `buf` and advances the
    /// position by its length. The bytes come from the cached block alone.
    pub fn read(&mut self, buf: &mut Vec<u8>) -> (r: Result<usize, VolumeError>)
        requires
            old(self).wf(),
            old(self).cursor() + old(buf)@.len() <= BLOCK_SIZE,
        ensures
            final(self).wf(),
            Self::read_post(*old(self), old(buf)@, *final(self), final(buf)@, r),
    {
        let n = buf.len();
        let total = self.total_bytes();
        if n > total - self.byte_offset {
            return Err(VolumeError::InvalidInput);
        }
        if n > 0 && !self.loaded {
            return Err(VolumeError::Device(DevError(DeviceError::IoError)));
        }
        let start = self.byte_offset - self.blk_cursor * BLOCK_SIZE;
        let mut i: usize = 0;
        while i < n
            invariant
                buf@.len() == n,
                start + n <= BLOCK_SIZE,
                self.buffer@.len() == BLOCK_SIZE,
                forall|j: int| 0 <= j < i ==> buf@[j] == self.buffer@[start + j],
            decreases n - i,
        {
            buf[i] = self.buffer[start + i];
            i += 1;
        }
        assert(buf@ =~= self.buffer@.subrange(start as int, start + n));
        self.byte_offset = self.byte_offset + n;
        Ok(n)
    }

    /// Copies `buf` into the cached block at the stream position and advances
    /// the position by its length. Nothing reaches the device until `flush`.
    pub fn write(&mut self, buf: &[u8]) -> (r: Result<usize, VolumeError>)
        requires
            old(self).wf(),
            old(self).cursor() + buf@.len() <= BLOCK_SIZE,
        ensures
            final(self).wf(),
            Self::write_post(*old(self), buf@, *final(self), r),
    {
        let n = buf.len();
        let total = self.total_bytes();
        if n > total - self.byte_offset {
            return Err(VolumeError::InvalidInput);
        }
        if n > 0 && !self.loaded {
            return Err(VolumeError::Device(DevError(DeviceError::IoError)));
        }
        let start = self.byte_offset - self.blk_cursor * BLOCK_SIZE;
        let ghost before = self.buffer@;
        let mut i: usize = 0;
        while i < n
            invariant
                n == buf@.len(),
                i <= n,
                self.blk_dev == old(self).blk_dev,
                self.start_offset == old(self).start_offset,
                self.block_num == old(self).block_num,
                self.blk_cursor == old(self).blk_cursor,
                self.byte_offset == old(self).byte_offset,
                self.loaded == old(self).loaded,
                start + n <= BLOCK_SIZE,
                before.len() == BLOCK_SIZE,
                self.buffer@.len() == BLOCK_SIZE,
                forall|j: int| 0 <= j < i ==> self.buffer@[start + j] == buf@[j],
                forall|j: int| 0 <= j < start ==> self.buffer@[j] == before[j],
                forall|j: int| start + i <= j < BLOCK_SIZE ==> self.buffer@[j] == before[j],
            decreases n - i,
        {
            self.buffer[start + i] = buf[i];
            i += 1;
        }
        assert(self.buffer@ =~= overwrite(before, start as int, buf@));
        self.byte_offset = self.byte_offset + n;
        Ok(n)
    }

    /// Writes the cached block back to its place on the device. With no block
    /// resident there is nothing to write.
    pub fn flush(&mut self) -> (r: Result<(), VolumeError>)
        requires
            old(self).wf(),
        ensures
            final(self).wf(),
            Self::flush_post(*old(self), *final(self), r),
    {
        if !self.loaded {
            return Ok(());
        }
        match self.blk_dev.write_block(self.start_offset + self.blk_cursor, self.buffer.as_slice()) {
            Ok(()) => Ok(()),
            Err(e) => Err(VolumeError::Device(e)),
        }
    }

    /// Moves the stream position. A position outside `[0, total_len]` is
    /// refused. When the new position lies in another block of the window,
    /// that block is read into the buffer, which drops any write to the old
    /// block that was not flushed.
    pub fn seek(&mut self, pos: SeekFrom) -> (r: Result<u64, VolumeError>)
        requires
            old(self).wf(),
        ensures
            final(self).wf(),
            Self::seek_post(*old(self), pos, *final(self), r),
    {
        let total = self.total_bytes();
        let target: i128 = match pos {
            SeekFrom::Start(x) => x as i128,
            SeekFrom::Current(x) => self.byte_offset as i128 + x as i128,
            SeekFrom::End(x) => total as i128 + x as i128,
        };
        if target < 0 || target > total as i128 {
            return Err(VolumeError::InvalidInput);
        }
        let t = target as usize;
        let b = t / BLOCK_SIZE;
        if b != self.blk_cursor {
            self.blk_cursor = b;
            self.byte_offset = t;
            if b < self.block_num {
                match self.blk_dev.read_block(self.start_offset + b, &mut self.buffer) {
                    Ok(()) => {
                        self.loaded = true;
                    },
                    Err(e) => {
                        self.loaded = false;
                        return Err(VolumeError::Device(e));
                    },
                }
            } else {
                self.loaded = false;
            }
        }
        self.byte_offset = t;
        Ok(t as u64)
    }

    /// Reads `len` bytes of the window from byte `off` on into the front of
    /// `dest`, one block at a time, seeking to each block before reading it.
    pub fn read_exact_at(&mut self, off: u64, dest: &mut Vec<u8>, len: usize) -> (r: Result<(), VolumeError>)
        requires
            old(self).wf(),
            old(self).coherent(),
            len <= old(dest)@.len(),
        ensures
            final(self).wf(),
            final(self).coherent(),
            final(self).start_block() == old(self).start_block(),
            final(self).block_count() == old(self).block_count(),
            final(self).blocks() == old(self).blocks(),
            final(self).device().reliable() == old(self).device().reliable(),
            final(dest)@.len() == old(dest)@.len(),
            old(self).read_owed(off as int, len as int) ==> r is Ok,
            r is Ok ==> {
                &&& off + len <= old(self).total_len()
                &&& forall|i: int| 0 <= i < len ==> final(dest)@[i] == #[trigger] old(self).stream_byte(off + i)
                &&& forall|i: int| len <= i < old(dest)@.len() ==> final(dest)@[i] == old(dest)@[i]
            },
            off + len > old(self).total_len() ==> r is Err,
            r == Err::<(), VolumeError>(VolumeError::InvalidInput) ==> off + len > old(self).total_len(),
    {
        let first = match self.seek(SeekFrom::Start(off)) {
            Ok(p) => p,
            Err(e) => {
                return Err(e);
            },
        };
        let ghost a_case = old(self).served_from_cache(off as int, len as int);
        let ghost b_case = old(self).reliable() && old(self).settled();
        let ghost owed = old(self).read_owed(off as int, len as int);
        let mut pos: usize = first as usize;
        let mut done: usize = 0;
        while done < len
            invariant
                self.wf(),
                self.coherent(),
                self.start_block() == old(self).start_block(),
                self.block_count() == old(self).block_count(),
                self.blocks() == old(self).blocks(),
                self.device().reliable() == old(self).device().reliable(),
                owed ==> off + len <= self.total_len(),
                owed == old(self).read_owed(off as int, len as int),
                owed ==> a_case || b_case,
                owed && a_case && done == 0 ==> self.cached_index() == off / 512,
                owed && a_case && done == 0 && len > 0 ==> self.resident() && off % 512 + len <= 512,
                owed && a_case ==> done == 0 || done == len,
                owed && b_case ==> self.reliable() && self.settled(),
                pos == off + done,
                pos <= self.total_len(),
                done <= len,
                len <= dest@.len(),
                dest@.len() == old(dest)@.len(),
                forall|i: int| 0 <= i < done ==> dest@[i] == #[trigger] old(self).stream_byte(off + i),
                forall|i: int| len <= i < old(dest)@.len() ==> dest@[i] == old(dest)@[i],
            decreases len - done,
        {
            let cursor = pos % BLOCK_SIZE;
            let room = BLOCK_SIZE - cursor;
            let chunk = if room < len - done { room } else { len - done };
            proof {
                vstd::arithmetic::div_mod::lemma_fundamental_div_mod(pos as int, BLOCK_SIZE as int);
                if owed {
                    assert(pos / 512 < self.block_count());
                    if a_case {
                        assert(done == 0);
                        assert(chunk == len);
                    }
                }
            }
            let ghost before_seek = *self;
            match self.seek(SeekFrom::Start(pos as u64)) {
                Ok(_) => {},
                Err(e) => {
                    proof {
                        if owed {
                            if a_case {
                                assert(pos / 512 == before_seek.cached_index());
                            } else {
                                assert(b_case);
                                assert(pos / 512 != before_seek.cached_index());
                            }
                        }
                    }
                    return Err(e);
                },
            }
            proof {
                if owed {
                    assert(self.resident());
                    assert(pos + chunk <= self.total_len());
                    assert(self.cursor() == pos % 512);
                }
            }
            let mut tmp: Vec<u8> = vec![0u8; chunk];
            match self.read(&mut tmp) {
                Ok(_) => {},
                Err(e) => {
                    return Err(e);
                },
            }
            proof {
                assert forall|i: int| 0 <= i < chunk implies tmp@[i] == #[trigger] old(self).stream_byte(pos + i) by {
                    assert((pos + i) / 512 == pos / 512);
                    assert((pos + i) % 512 == pos % 512 + i);
                }
            }
            let mut k: usize = 0;
            while k < chunk
                invariant
                    k <= chunk,
                    done + chunk <= len,
                    len <= dest@.len(),
                    pos == off + done,
                    dest@.len() == old(dest)@.len(),
                    tmp@.len() == chunk,
                    forall|i: int| 0 <= i < chunk ==> tmp@[i] == #[trigger] old(self).stream_byte(pos + i),
                    forall|i: int| 0 <= i < done + k ==> dest@[i] == #[trigger] old(self).stream_byte(off + i),
                    forall|i: int| len <= i < old(dest)@.len() ==> dest@[i] == old(dest)@[i],
                decreases chunk - k,
            {
                dest[done + k] = tmp[k];
                proof {
                    assert(dest@[done + k] == old(self).stream_byte(pos + k));
                }
                k += 1;
            }
            done = done + chunk;
            pos = pos + chunk;
        }
        Ok(())
    }

    /// Offset of the stream inside the cached block: a read or write of `n`
    /// bytes needs `cursor_in_block() + n <= BLOCK_SIZE`.
    pub fn cursor_in_block(&self) -> (r: usize)
        requires
            self.wf(),
        ensures
            r == self.cursor(),
            r <= BLOCK_SIZE,
    {
        self.byte_offset - self.blk_cursor * BLOCK_SIZE
    }

    /// Gives the device back.
    pub fn into_device(self) -> (r: D)
        ensures
            r == self.device(),
    {
        self.blk_dev
    }
}

/// After a seek to a byte `off` inside the window of a volume whose buffer
/// mirrors the device, a one-byte read that succeeds returns byte `off % 512`
/// of device block `start + off / 512`.
pub proof fn lemma_seek_then_read_matches_device<D: BlockDevice>(
    v0: Volume<D>,
    off: u64,
    v1: Volume<D>,
    rs: Result<u64, VolumeError>,
    b0: Seq<u8>,
    v2: Volume<D>,
    b1: Seq<u8>,
    rr: Result<usize, VolumeError>,
)
    requires
        v0.wf(),
        v0.coherent(),
        off < v0.total_len(),
        Volume::seek_post(v0, SeekFrom::Start(off), v1, rs),
        rs is Ok,
        b0.len() == 1,
        Volume::read_post(v1, b0, v2, b1, rr),
        rr is Ok,
    ensures
        v0.start_block() + off / 512 < v0.blocks().len(),
        b1[0] == v0.blocks()[v0.start_block() + off / 512][(off % 512) as int],
{
    assert(v1.cursor() == off % 512);
    assert(v1.resident());
    assert(v1.cache() == v0.blocks()[v0.start_block() + off / 512]);
    assert(b1[0] == v1.cache()[v1.cursor()]);
}

/// Bytes written at the stream position and flushed are read back by a fresh
/// volume over the same window, after a seek to that position.
pub proof fn lemma_flushed_write_round_trip<D: BlockDevice>(
    v0: Volume<D>,
    data: Seq<u8>,
    v1: Volume<D>,
    rw: Result<usize, VolumeError>,
    v2: Volume<D>,
    rf: Result<(), VolumeError>,
    rn: Result<Volume<D>, VolumeError>,
    p: u64,
    v4: Volume<D>,
    rs: Result<u64, VolumeError>,
    b0: Seq<u8>,
    v5: Volume<D>,
    b1: Seq<u8>,
    rr: Result<usize, VolumeError>,
)
    requires
        v0.wf(),
        v0.cursor() + data.len() <= BLOCK_SIZE,
        Volume::write_post(v0, data, v1, rw),
        rw is Ok,
        Volume::flush_post(v1, v2, rf),
        rf is Ok,
        Volume::new_post(v0.start_block(), v0.start_block() + v0.block_count(), v2.device(), rn),
        rn is Ok,
        p == v0.position(),
        Volume::seek_post(rn->Ok_0, SeekFrom::Start(p), v4, rs),
        rs is Ok,
        b0.len() == data.len(),
        Volume::read_post(v4, b0, v5, b1, rr),
        rr is Ok,
    ensures
        b1 == data,
{
    if data.len() > 0 {
        let v3 = rn->Ok_0;
        let c = v0.cached_index();
        assert(p / 512 == c);
        assert(v3.cache() == v2.blocks()[v0.start_block()]);
        assert(v4.cache() == v1.cache());
        assert(v4.cursor() == v0.cursor());
        assert(v0.cache().len() == BLOCK_SIZE);
        let w = overwrite(v0.cache(), v0.cursor(), data);
        assert forall|i: int| 0 <= i < data.len() implies b1[i] == data[i] by {
            assert(b1[i] == w[v0.cursor() + i]);
        }
        assert(b1 =~= data);
    } else {
        assert(b1 =~= data);
    }
}

/// A seek to another block drops a write that was not flushed: the device
/// still holds what the written block held before, the buffer is reloaded
/// from the device, and on a device that serves the whole window the seek
/// succeeds.
pub proof fn lemma_unflushed_write_lost_on_block_switch<D: BlockDevice>(
    v0: Volume<D>,
    data: Seq<u8>,
    v1: Volume<D>,
    rw: Result<usize, VolumeError>,
    pos: SeekFrom,
    v2: Volume<D>,
    rs: Result<u64, VolumeError>,
)
    requires
        v0.wf(),
        v0.coherent(),
        Volume::write_post(v0, data, v1, rw),
        rw is Ok,
        Volume::seek_post(v1, pos, v2, rs),
        0 <= seek_target(pos, v1.position(), v1.total_len()) <= v1.total_len(),
        seek_target(pos, v1.position(), v1.total_len()) / BLOCK_SIZE as int != v0.cached_index(),
    ensures
        v0.reliable() ==> rs == Ok::<u64, VolumeError>(seek_target(pos, v1.position(), v1.total_len()) as u64),
        v2.blocks() == v0.blocks(),
        v0.resident() ==> v2.blocks()[v0.start_block() + v0.cached_index()] == v0.cache(),
        v2.cached_index() == seek_target(pos, v1.position(), v1.total_len()) / BLOCK_SIZE as int,
        rs is Ok && v2.cached_index() < v2.block_count() ==> v2.resident()
            && v2.cache() == v0.blocks()[v0.start_block() + v2.cached_index()],
        v2.coherent(),
{
}

/// A seek to the end of the window succeeds, and no read of one byte or more
/// succeeds there.
pub proof fn lemma_seek_to_window_end<D: BlockDevice>(
    v0: Volume<D>,
    end: u64,
    v1: Volume<D>,
    rs: Result<u64, VolumeError>,
    b0: Seq<u8>,
    v2: Volume<D>,
    b1: Seq<u8>,
    rr: Result<usize, VolumeError>,
)
    requires
        v0.wf(),
        end == v0.total_len(),
        Volume::seek_post(v0, SeekFrom::Start(end), v1, rs),
        b0.len() >= 1,
        Volume::read_post(v1, b0, v2, b1, rr),
    ensures
        rs == Ok::<u64, VolumeError>(end),
        v1.position() == end,
        rr == Err::<usize, VolumeError>(VolumeError::InvalidInput),
{
}

} // verus!
