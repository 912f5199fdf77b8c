use vstd::prelude::*;

verus! {

/// Byte `k` (0 = least significant) of the little-endian image of `v`.
pub open spec fn le_byte(v: u32, k: int) -> u8 {
    if k == 0 {
        (v & 0xff) as u8
    } else if k == 1 {
        ((v >> 8u32) & 0xff) as u8
    } else if k == 2 {
        ((v >> 16u32) & 0xff) as u8
    } else {
        ((v >> 24u32) & 0xff) as u8
    }
}

/// The `u32` whose little-endian image is `b0 b1 b2 b3`.
pub open spec fn le_word(b0: u8, b1: u8, b2: u8, b3: u8) -> u32 {
    (b0 as u32) | ((b1 as u32) << 8u32) | ((b2 as u32) << 16u32) | ((b3 as u32) << 24u32)
}

/// The `u32` stored little-endian at `off` in `bytes`.
pub open spec fn word_at(bytes: Seq<u8>, off: int) -> u32 {
    le_word(bytes[off], bytes[off + 1], bytes[off + 2], bytes[off + 3])
}

/// The `u64` stored little-endian at `off` in `bytes`.
pub open spec fn dword_at(bytes: Seq<u8>, off: int) -> u64 {
    (word_at(bytes, off) as u64) | ((word_at(bytes, off + 4) as u64) << 32u64)
}

/// Reading back the bytes of a word gives the word.
pub proof fn lemma_word_round_trip(v: u32)
    ensures
        le_word(le_byte(v, 0), le_byte(v, 1), le_byte(v, 2), le_byte(v, 3)) == v,
{
    assert(((v & 0xff) as u8 as u32) | ((((v >> 8u32) & 0xff) as u8 as u32) << 8u32) | ((((v
        >> 16u32) & 0xff) as u8 as u32) << 16u32) | ((((v >> 24u32) & 0xff) as u8 as u32)
        << 24u32) == v) by (bit_vector);
}

/// Joining the two halves of a double word gives the double word.
pub proof fn lemma_dword_round_trip(v: u64)
    ensures
        ((v as u32) as u64) | ((((v >> 32u64) as u32) as u64) << 32u64) == v,
{
    assert(((v as u32) as u64) | ((((v >> 32u64) as u32) as u64) << 32u64) == v) by (bit_vector);
}

/// An offset or a length that does not fit in a buffer.
#[derive(Debug, Clone, Copy, PartialEq, Eq, Structural)]
pub struct BoundsError {
    pub offset: usize,
    pub len: usize,
    pub capacity: usize,
}

/// Host image of a storage buffer bound to a fixed slot.
///
/// The bytes are the contents the device sees once the buffer is uploaded.
/// A new empty buffer is zero-filled. The capacity never changes: growing
/// means allocating a new buffer, never resizing this one.
pub struct StorageBuffer {
    binding: u32,
    bytes: Vec<u8>,
}

impl View for StorageBuffer {
    type V = Seq<u8>;

    closed spec fn view(&self) -> Seq<u8> {
        self.bytes@
    }
}

impl StorageBuffer {
    pub closed spec fn slot(&self) -> u32 {
        self.binding
    }

    /// A zero-filled buffer of `capacity` bytes at slot `binding`.
    pub fn empty(binding: u32, capacity: usize) -> (r: StorageBuffer)
        ensures
            r.slot() == binding,
            r@ == Seq::new(capacity as nat, |i: int| 0u8),
    {
        let mut bytes: Vec<u8> = Vec::with_capacity(capacity);
        let mut i: usize = 0;
        while i < capacity
            invariant
                i <= capacity,
                bytes@ == Seq::new(i as nat, |k: int| 0u8),
            decreases capacity - i,
        {
            bytes.push(0u8);
            i = i + 1;
            assert(bytes@ =~= Seq::new(i as nat, |k: int| 0u8));
        }
        StorageBuffer { binding, bytes }
    }

    /// A buffer at slot `binding` that holds the little-endian image of `data`.
    pub fn from_words(binding: u32, data: &Vec<u32>) -> (r: StorageBuffer)
        requires
            4 * data@.len() <= usize::MAX,
        ensures
            r.slot() == binding,
            r.capacity() == 4 * data@.len(),
            forall|k: int| 0 <= k < data@.len() ==> #[trigger] word_at(r@, 4 * k) == data@[k],
    {
        let mut r = StorageBuffer::empty(binding, 4 * data.len());
        let mut i: usize = 0;
        while i < data.len()
            invariant
                i <= data@.len(),
                4 * data@.len() <= usize::MAX,
                r.slot() == binding,
                r.capacity() == 4 * data@.len(),
                forall|k: int| 0 <= k < i ==> #[trigger] word_at(r@, 4 * k) == data@[k],
            decreases data@.len() - i,
        {
            let ghost prev = r@;
            r.put_word(4 * i, data[i]);
            assert forall|k: int| 0 <= k < i + 1 implies #[trigger] word_at(r@, 4 * k)
                == data@[k] by {
                if k < i {
                    assert(word_at(prev, 4 * k) == data@[k]);
                    assert(r@[4 * k] == prev[4 * k]);
                    assert(r@[4 * k + 1] == prev[4 * k + 1]);
                    assert(r@[4 * k + 2] == prev[4 * k + 2]);
                    assert(r@[4 * k + 3] == prev[4 * k + 3]);
                }
            }
            i = i + 1;
        }
        r
    }

    pub open spec fn capacity(&self) -> nat {
        self@.len()
    }

    /// Size of the buffer in bytes.
    pub fn byte_capacity(&self) -> (r: usize)
        ensures
            r == self.capacity(),
    {
        self.bytes.len()
    }

    /// The slot this buffer is bound to.
    pub fn binding(&self) -> (r: u32)
        ensures
            r == self.slot(),
    {
        self.binding
    }

    /// The byte image to upload to the device.
    pub fn bytes(&self) -> (r: &Vec<u8>)
        ensures
            r@ == self@,
    {
        &self.bytes
    }

    /// Stores the little-endian image of `v` at `off`.
    pub fn put_word(&mut self, off: usize, v: u32)
        requires
            off + 4 <= old(self).capacity(),
        ensures
            final(self).slot() == old(self).slot(),
            final(self).capacity() == old(self).capacity(),
            forall|p: int|
                0 <= p < old(self).capacity() ==> #[trigger] final(self)@[p] == if off <= p < off
                    + 4 {
                    le_byte(v, p - off)
                } else {
                    old(self)@[p]
                },
            word_at(final(self)@, off as int) == v,
    {
        let _n = self.bytes.len();
        self.bytes.set(off, (v & 0xff) as u8);
        self.bytes.set(off + 1, ((v >> 8u32) & 0xff) as u8);
        self.bytes.set(off + 2, ((v >> 16u32) & 0xff) as u8);
        self.bytes.set(off + 3, ((v >> 24u32) & 0xff) as u8);
        proof {
            lemma_word_round_trip(v);
        }
    }

    /// The `u32` stored little-endian at `off`.
    pub fn get_word(&self, off: usize) -> (r: u32)
        requires
            off + 4 <= self.capacity(),
        ensures
            r == word_at(self@, off as int),
    {
        let _n = self.bytes.len();
        let b0 = self.bytes[off] as u32;
        let b1 = self.bytes[off + 1] as u32;
        let b2 = self.bytes[off + 2] as u32;
        let b3 = self.bytes[off + 3] as u32;
        b0 | (b1 << 8u32) | (b2 << 16u32) | (b3 << 24u32)
    }

    /// The `u64` stored little-endian at `off`.
    pub fn get_dword(&self, off: usize) -> (r: u64)
        requires
            off + 8 <= self.capacity(),
        ensures
            r == dword_at(self@, off as int),
    {
        let _n = self.bytes.len();
        let lo = self.get_word(off) as u64;
        let hi = self.get_word(off + 4) as u64;
        lo | (hi << 32u64)
    }

    /// Copies `data` into the buffer at `off`: the device's results, read
    /// back, come in this way. Fails when `data` does not fit from `off`.
    pub fn store(&mut self, off: usize, data: &Vec<u8>) -> (r: Result<(), BoundsError>)
        ensures
            final(self).slot() == old(self).slot(),
            final(self).capacity() == old(self).capacity(),
            r.is_ok() <==> off + data@.len() <= old(self).capacity(),
            r.is_ok() ==> forall|p: int|
                0 <= p < old(self).capacity() ==> #[trigger] final(self)@[p] == if off <= p < off
                    + data@.len() {
                    data@[p - off]
                } else {
                    old(self)@[p]
                },
            r.is_err() ==> final(self)@ == old(self)@,
    {
        if off > self.bytes.len() || data.len() > self.bytes.len() - off {
            return Err(BoundsError { offset: off, len: data.len(), capacity: self.bytes.len() });
        }
        let mut i: usize = 0;
        while i < data.len()
            invariant
                i <= data@.len(),
                off + data@.len() <= old(self).capacity() <= usize::MAX,
                self.binding == old(self).binding,
                self@.len() == old(self)@.len(),
                forall|p: int|
                    0 <= p < old(self).capacity() ==> #[trigger] self@[p] == if off <= p < off + i {
                        data@[p - off]
                    } else {
                        old(self)@[p]
                    },
            decreases data@.len() - i,
        {
            self.bytes.set(off + i, data[i]);
            i = i + 1;
        }
        Ok(())
    }
}

} // verus!
