//! A block device held in memory.
use vstd::prelude::*;
use crate::volume::{BlockDevice, DevError, DeviceError, BLOCK_SIZE};

verus! {

/// A device whose blocks live in memory, one after another. Every access to a
/// block that exists succeeds; an access past the last block fails.
pub struct MemDevice {
    data: Vec<u8>,
}

impl MemDevice {
    /// A device of `count` blocks filled with zeros.
    pub fn new(count: usize) -> (r: MemDevice)
        requires
            count * BLOCK_SIZE <= usize::MAX,
        ensures
            r.blocks().len() == count,
            forall|i: int, j: int| 0 <= i < count && 0 <= j < BLOCK_SIZE ==> r.blocks()[i][j] == 0,
    {
        let data: Vec<u8> = vec![0u8; count * BLOCK_SIZE];
        let r = MemDevice { data };
        assert forall|i: int, j: int| 0 <= i < count && 0 <= j < BLOCK_SIZE implies r.blocks()[i][j] == 0 by {
            assert(r.data@[i * BLOCK_SIZE + j] == 0);
        }
        r
    }

    /// Number of blocks.
    pub fn block_count(&self) -> (r: usize)
        ensures
            r == self.blocks().len(),
    {
        self.data.len() / BLOCK_SIZE
    }

    /// A copy of block `index`.
    pub fn block(&self, index: usize) -> (r: Vec<u8>)
        requires
            index < self.blocks().len(),
        ensures
            r@ == self.blocks()[index as int],
    {
        let len = self.data.len();
        proof {
            vstd::arithmetic::div_mod::lemma_fundamental_div_mod(len as int, BLOCK_SIZE as int);
        }
        let base = index * BLOCK_SIZE;
        let mut out: Vec<u8> = Vec::new();
        let mut i: usize = 0;
        while i < BLOCK_SIZE
            invariant
                base == index * BLOCK_SIZE,
                base + BLOCK_SIZE <= self.data@.len(),
                i <= BLOCK_SIZE,
                out@ == self.data@.subrange(base as int, base + i),
            decreases BLOCK_SIZE - i,
        {
            out.push(self.data[base + i]);
            i += 1;
            assert(out@ =~= self.data@.subrange(base as int, base + i));
        }
        out
    }
}

impl BlockDevice for MemDevice {
    closed spec fn blocks(&self) -> Seq<Seq<u8>> {
        Seq::new(
            (self.data@.len() as int / BLOCK_SIZE as int) as nat,
            |i: int| self.data@.subrange(i * BLOCK_SIZE, i * BLOCK_SIZE + BLOCK_SIZE),
        )
    }

    open spec fn reliable(&self) -> bool {
        true
    }

    fn read_block(&mut self, index: usize, buf: &mut Vec<u8>) -> (r: Result<(), DevError>) {
        if index >= self.data.len() / BLOCK_SIZE {
            return Err(DevError(DeviceError::IoError));
        }
        let base = index * BLOCK_SIZE;
        let mut i: usize = 0;
        while i < BLOCK_SIZE
            invariant
                base == index * BLOCK_SIZE,
                base + BLOCK_SIZE <= self.data@.len(),
                buf@.len() == BLOCK_SIZE,
                forall|j: int| 0 <= j < i ==> buf@[j] == self.data@[base + j],
            decreases BLOCK_SIZE - i,
        {
            buf[i] = self.data[base + i];
            i += 1;
        }
        assert(buf@ =~= self.blocks()[index as int]);
        Ok(())
    }

    fn write_block(&mut self, index: usize, buf: &[u8]) -> (r: Result<(), DevError>) {
        if index >= self.data.len() / BLOCK_SIZE {
            return Err(DevError(DeviceError::IoError));
        }
        let base = index * BLOCK_SIZE;
        let ghost before = self.data@;
        let mut i: usize = 0;
        while i < BLOCK_SIZE
            invariant
                base == index * BLOCK_SIZE,
                base + BLOCK_SIZE <= before.len(),
                i <= BLOCK_SIZE,
                self.data@.len() == before.len(),
                buf@.len() == BLOCK_SIZE,
                forall|j: int| 0 <= j < i ==> self.data@[base + j] == buf@[j],
                forall|j: int| 0 <= j < base ==> self.data@[j] == before[j],
                forall|j: int| base + i <= j < before.len() ==> self.data@[j] == before[j],
            decreases BLOCK_SIZE - i,
        {
            self.data[base + i] = buf[i];
            i += 1;
        }
        let ghost old_blocks = old(self).blocks();
        proof {
            vstd::arithmetic::div_mod::lemma_fundamental_div_mod(before.len() as int, BLOCK_SIZE as int);
        }
        assert forall|k: int| 0 <= k < old_blocks.len() implies #[trigger] self.blocks()[k]
            =~= old_blocks.update(index as int, buf@)[k] by {
            assert(k * BLOCK_SIZE + BLOCK_SIZE <= before.len());
            if k == index {
                assert(self.blocks()[k] =~= buf@);
            } else if k < index {
                assert(k * BLOCK_SIZE + BLOCK_SIZE <= base) by (nonlinear_arith)
                    requires k < index, base == index * BLOCK_SIZE;
                assert(self.blocks()[k] =~= old_blocks[k]);
            } else if k > index {
                assert(k * BLOCK_SIZE >= base + BLOCK_SIZE) by (nonlinear_arith)
                    requires k > index, base == index * BLOCK_SIZE;
                assert(self.blocks()[k] =~= old_blocks[k]);
            }
        }
        assert(self.blocks() =~= old_blocks.update(index as int, buf@));
        Ok(())
    }
}

} // verus!
