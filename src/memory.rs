use vstd::prelude::*;

verus! {

/// An access of `len` bytes at `offset` lies inside a memory of `size` bytes.
pub open spec fn fits(size: nat, offset: int, len: int) -> bool {
    offset + len <= size
}

/// `mem` with the bytes from `offset` on replaced by `data`.
pub open spec fn splice(mem: Seq<u8>, offset: int, data: Seq<u8>) -> Seq<u8> {
    mem.subrange(0, offset) + data + mem.subrange(offset + data.len(), mem.len() as int)
}

/// Bounds-checked access to one guest instance's linear memory.
pub trait MemoryLike {
    /// The bytes of the memory, its length being the memory's current size.
    spec fn contents(&self) -> Seq<u8>;

    /// The memory is addressable from the host.
    proof fn lemma_size_addressable(&self)
        ensures
            self.contents().len() <= usize::MAX,
    ;

    /// Whether `len` bytes from `offset` lie inside the memory; never overflows.
    fn fits_memory(&self, offset: u64, len: u64) -> (r: bool)
        ensures
            r == fits(self.contents().len(), offset as int, len as int),
    ;

    /// Fills `buffer` with the bytes that start at `offset`.
    fn read_memory(&self, offset: u64, buffer: &mut [u8])
        requires
            fits(self.contents().len(), offset as int, old(buffer)@.len() as int),
        ensures
            final(buffer)@ == self.contents().subrange(
                offset as int,
                offset + old(buffer)@.len(),
            ),
    ;

    /// Writes `buffer` into the memory from `offset` on.
    fn write_memory(&mut self, offset: u64, buffer: &[u8])
        requires
            fits(old(self).contents().len(), offset as int, buffer@.len() as int),
        ensures
            final(self).contents() == splice(old(self).contents(), offset as int, buffer@),
    ;
}

/// Guest memory held by the host process, as a vector of bytes.
pub struct GuestMemory {
    bytes: Vec<u8>,
}

impl GuestMemory {
    /// A zeroed memory of `size` bytes.
    pub fn new(size: usize) -> (r: GuestMemory)
        ensures
            r.contents() == Seq::new(size as nat, |i: int| 0u8),
    {
        let mut bytes: Vec<u8> = Vec::with_capacity(size);
        let mut i: usize = 0;
        while i < size
            invariant
                i <= size,
                bytes@ == Seq::new(i as nat, |j: int| 0u8),
            decreases size - i,
        {
            bytes.push(0u8);
            i = i + 1;
            assert(bytes@ =~= Seq::new(i as nat, |j: int| 0u8));
        }
        GuestMemory { bytes }
    }

    /// A memory that holds exactly `bytes`.
    pub fn from_bytes(bytes: Vec<u8>) -> (r: GuestMemory)
        ensures
            r.contents() == bytes@,
    {
        GuestMemory { bytes }
    }

    /// The current size in bytes.
    pub fn size(&self) -> (r: usize)
        ensures
            r == self.contents().len(),
    {
        self.bytes.len()
    }
}

impl MemoryLike for GuestMemory {
    closed spec fn contents(&self) -> Seq<u8> {
        self.bytes@
    }

    proof fn lemma_size_addressable(&self) {
        assert(self.bytes@.len() == self.bytes.len());
    }

    fn fits_memory(&self, offset: u64, len: u64) -> (r: bool) {
        let size = self.bytes.len();
        assert(size <= u64::MAX);
        match offset.checked_add(len) {
            Some(end) => end <= size as u64,
            None => false,
        }
    }

    fn read_memory(&self, offset: u64, buffer: &mut [u8]) {
        let n = buffer.len();
        let size = self.bytes.len();
        assert(offset <= size);
        let start = offset as usize;
        let mut i: usize = 0;
        while i < n
            invariant
                n == old(buffer)@.len(),
                buffer@.len() == n,
                start == offset,
                size == self.bytes@.len(),
                offset + n <= self.bytes@.len(),
                i <= n,
                forall|j: int| 0 <= j < i ==> buffer@[j] == self.bytes@[start + j],
            decreases n - i,
        {
            buffer[i] = self.bytes[start + i];
            i = i + 1;
        }
        assert(buffer@ =~= self.bytes@.subrange(offset as int, offset + old(buffer)@.len()));
    }

    fn write_memory(&mut self, offset: u64, buffer: &[u8]) {
        let n = buffer.len();
        let size = self.bytes.len();
        assert(offset <= size);
        let start = offset as usize;
        let mut i: usize = 0;
        while i < n
            invariant
                n == buffer@.len(),
                start == offset,
                self.bytes@.len() == old(self).bytes@.len(),
                size == self.bytes@.len(),
                offset + n <= self.bytes@.len(),
                i <= n,
                forall|j: int|
                    0 <= j < self.bytes@.len() ==> #[trigger] self.bytes@[j] == if start <= j
                        < start + i {
                        buffer@[j - start]
                    } else {
                        old(self).bytes@[j]
                    },
            decreases n - i,
        {
            self.bytes.set(start + i, buffer[i]);
            i = i + 1;
        }
        assert(self.bytes@ =~= splice(old(self).bytes@, offset as int, buffer@));
    }
}

} // verus!
