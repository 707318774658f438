//! Flash geometry of the file system and an in-memory block device.
use vstd::prelude::*;

verus! {

pub const READ_SIZE: usize = 256;

pub const WRITE_SIZE: usize = 256;

pub const BLOCK_SIZE: usize = 4096;

pub const BLOCK_COUNT: usize = 256;

/// Offset of the file-system partition in flash.
pub const PARTITION_OFFSET: u32 = 0x300000;

/// Whether a host directory entry named `name` goes into the file-system
/// image: marker files `.keep` and `.DS_Store` stay out.
pub fn is_image_entry(name: &str) -> (r: bool)
    ensures
        r == (name@ != ".keep"@ && name@ != ".DS_Store"@),
{
    !crate::text::str_eq(name, ".keep") && !crate::text::str_eq(name, ".DS_Store")
}

/// Flash addresses `[start, end)` of `len` bytes at offset `off` in a
/// partition starting at `partition_offset`.
pub fn flash_range(partition_offset: u32, off: usize, len: usize) -> (r: (u32, u32))
    requires
        partition_offset + off + len <= u32::MAX,
    ensures
        r.0 == partition_offset + off,
        r.1 == partition_offset + off + len,
{
    let start = partition_offset + off as u32;
    (start, start + len as u32)
}

/// A block device held in memory, as used to build file-system images.
pub struct RamStorage {
    pub data: Vec<u8>,
}

impl RamStorage {
    /// A device of `size` bytes, all erased (0xff).
    pub fn new(size: usize) -> (s: Self)
        ensures
            s.data@ == Seq::new(size as nat, |i: int| 0xffu8),
    {
        let mut data: Vec<u8> = Vec::new();
        let mut i: usize = 0;
        while i < size
            invariant
                i <= size,
                data@ == Seq::new(i as nat, |j: int| 0xffu8),
            decreases size - i,
        {
            data.push(0xff);
            i = i + 1;
            assert(data@ =~= Seq::new(i as nat, |j: int| 0xffu8));
        }
        RamStorage { data }
    }

    /// Copies `len` bytes at `off` out of the device.
    pub fn read(&self, off: usize, len: usize) -> (buf: Vec<u8>)
        requires
            off + len <= self.data@.len(),
        ensures
            buf@ == self.data@.subrange(off as int, off + len),
    {
        let mut buf: Vec<u8> = Vec::new();
        let total = self.data.len();
        let mut i: usize = 0;
        while i < len
            invariant
                i <= len,
                total == self.data@.len(),
                off + len <= self.data@.len(),
                buf@ == self.data@.subrange(off as int, off + i),
            decreases len - i,
        {
            buf.push(self.data[off + i]);
            i = i + 1;
            assert(buf@ =~= self.data@.subrange(off as int, off + i));
        }
        buf
    }

    /// Writes `data` at `off`; returns the number of bytes written.
    pub fn write(&mut self, off: usize, data: &[u8]) -> (n: usize)
        requires
            off + data@.len() <= old(self).data@.len(),
        ensures
            n == data@.len(),
            final(self).data@ == old(self).data@.subrange(0, off as int) + data@ + old(
                self,
            ).data@.subrange(off + data@.len(), old(self).data@.len() as int),
    {
        let total = self.data.len();
        let mut i: usize = 0;
        while i < data.len()
            invariant
                i <= data@.len(),
                total == self.data@.len(),
                off + data@.len() <= old(self).data@.len(),
                self.data@.len() == old(self).data@.len(),
                forall|j: int| 0 <= j < off ==> self.data@[j] == old(self).data@[j],
                forall|j: int| 0 <= j < i ==> self.data@[off + j] == data@[j],
                forall|j: int| off + i <= j < self.data@.len() ==> self.data@[j] == old(self).data@[j],
            decreases data@.len() - i,
        {
            self.data.set(off + i, data[i]);
            i = i + 1;
        }
        assert(self.data@ =~= old(self).data@.subrange(0, off as int) + data@ + old(
            self,
        ).data@.subrange(off + data@.len(), old(self).data@.len() as int));
        data.len()
    }

    /// Erases `len` bytes at `off` to 0xff; returns `len`.
    pub fn erase(&mut self, off: usize, len: usize) -> (n: usize)
        requires
            off + len <= old(self).data@.len(),
        ensures
            n == len,
            final(self).data@ == old(self).data@.subrange(0, off as int) + Seq::new(
                len as nat,
                |i: int| 0xffu8,
            ) + old(self).data@.subrange(off + len, old(self).data@.len() as int),
    {
        let total = self.data.len();
        let mut i: usize = 0;
        while i < len
            invariant
                i <= len,
                total == self.data@.len(),
                off + len <= old(self).data@.len(),
                self.data@.len() == old(self).data@.len(),
                forall|j: int| 0 <= j < off ==> self.data@[j] == old(self).data@[j],
                forall|j: int| off <= j < off + i ==> self.data@[j] == 0xffu8,
                forall|j: int| off + i <= j < self.data@.len() ==> self.data@[j] == old(self).data@[j],
            decreases len - i,
        {
            self.data.set(off + i, 0xff);
            i = i + 1;
        }
        assert(self.data@ =~= old(self).data@.subrange(0, off as int) + Seq::new(
            len as nat,
            |i: int| 0xffu8,
        ) + old(self).data@.subrange(off + len, old(self).data@.len() as int));
        len
    }
}

/// A read returns what the last write to that place wrote.
pub proof fn lemma_read_after_write(before: Seq<u8>, off: int, data: Seq<u8>, after: Seq<u8>)
    requires
        0 <= off,
        off + data.len() <= before.len(),
        after == before.subrange(0, off) + data + before.subrange(off + data.len(), before.len() as int),
    ensures
        after.subrange(off, off + data.len()) == data,
        after.len() == before.len(),
{
    assert(after.subrange(off, off + data.len()) =~= data);
}

} // verus!
