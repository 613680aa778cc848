//! A byte-addressable store of fixed size that decoded data records can be
//! loaded into.

use vstd::prelude::*;
use vstd::slice::slice_subrange;

verus! {

/// The capability of a fixed-size, byte-addressable store: bounded single
/// and range reads, and the writes that loading decoded data records needs.
/// Any backing store that honors these contracts qualifies. Addressing out
/// of range is a caller error, ruled out by the preconditions rather than
/// masked by a default.
pub trait Memory {
    /// The bytes the store holds, one per address from 0 to its fixed size.
    spec fn contents(&self) -> Seq<u8>;

    /// The byte at `address`.
    fn get_byte(&self, address: usize) -> (r: u8)
        requires
            address < self.contents().len(),
        ensures
            r == self.contents()[address as int],
    ;

    /// The `count` bytes at `address` through `address + count - 1`, in
    /// ascending address order.
    fn get_bytes(&self, address: usize, count: usize) -> (r: &[u8])
        requires
            address + count <= self.contents().len(),
        ensures
            r@ == self.contents().subrange(address as int, address + count),
    ;

    /// Stores `value` at `address`; every other address keeps its byte.
    fn write_byte(&mut self, address: usize, value: u8)
        requires
            address < old(self).contents().len(),
        ensures
            final(self).contents() == old(self).contents().update(address as int, value),
    ;

    /// Stores `values` at `address` upward, in order; the size and every
    /// byte outside the written range are kept, and reads of the written
    /// range observe exactly the new values.
    fn write_range(&mut self, address: usize, values: &[u8])
        requires
            address + values@.len() <= old(self).contents().len(),
        ensures
            final(self).contents().len() == old(self).contents().len(),
            forall|i: int|
                0 <= i < values@.len() ==> final(self).contents()[address + i] == values@[i],
            forall|i: int|
                0 <= i < old(self).contents().len() && !(address <= i < address + values@.len())
                    ==> final(self).contents()[i] == old(self).contents()[i],
    ;
}

/// One contiguous, zero-initialized byte buffer of fixed size.
pub struct SimpleMemory {
    bytes: Vec<u8>,
}

impl SimpleMemory {
    /// A store of `size` bytes, every address holding 0.
    pub fn new(size: usize) -> (result: SimpleMemory)
        ensures
            result.contents().len() == size,
            forall|i: int| 0 <= i < size ==> result.contents()[i] == 0,
    {
        let mut bytes: Vec<u8> = Vec::new();
        while bytes.len() < size
            invariant
                bytes@.len() <= size,
                forall|i: int| 0 <= i < bytes@.len() ==> bytes@[i] == 0,
            decreases size - bytes@.len(),
        {
            bytes.push(0);
        }
        SimpleMemory { bytes }
    }
}

impl Memory for SimpleMemory {
    closed spec fn contents(&self) -> Seq<u8> {
        self.bytes@
    }

    fn get_byte(&self, address: usize) -> (r: u8) {
        self.bytes[address]
    }

    fn get_bytes(&self, address: usize, count: usize) -> (r: &[u8]) {
        let n = self.bytes.len();
        proof {
            assert(address + count <= n);
        }
        slice_subrange(self.bytes.as_slice(), address, address + count)
    }

    fn write_byte(&mut self, address: usize, value: u8) {
        self.bytes[address] = value;
    }

    fn write_range(&mut self, address: usize, values: &[u8]) {
        let ghost start = self.bytes@;
        let n = self.bytes.len();
        let mut i: usize = 0;
        while i < values.len()
            invariant
                i <= values@.len(),
                address + values@.len() <= start.len(),
                start.len() == n,
                self.bytes@.len() == start.len(),
                forall|j: int| 0 <= j < i ==> self.bytes@[address + j] == values@[j],
                forall|j: int|
                    0 <= j < start.len() && !(address <= j < address + i) ==> self.bytes@[j]
                        == start[j],
            decreases values@.len() - i,
        {
            self.bytes[address + i] = values[i];
            i = i + 1;
        }
    }
}

} // verus!
