//! The simulated bus: a flat buffer of bytes, written by the loaders and read
//! most significant byte first.

use vstd::prelude::*;
use crate::byteorder::{as_u16_be, as_u32_be, half_of, u32_from_be};

verus! {

/// A buffer of `size` zero bytes.
pub open spec fn zeroed(size: nat) -> Seq<u8> {
    Seq::new(size, |i: int| 0u8)
}

/// The buffer `memory` after `data` was copied over it from `address` on.
pub open spec fn overwritten(memory: Seq<u8>, address: int, data: Seq<u8>) -> Seq<u8> {
    Seq::new(
        memory.len(),
        |i: int|
            if address <= i < address + data.len() {
                data[i - address]
            } else {
                memory[i]
            },
    )
}

/// The half-word that `memory` holds at `address`, more significant byte first.
pub open spec fn half_at(memory: Seq<u8>, address: int) -> u16
    recommends
        0 <= address,
        address + 2 <= memory.len(),
{
    half_of(memory[address], memory[address + 1])
}

/// The word that `memory` holds at `address`, most significant byte first.
pub open spec fn word_at(memory: Seq<u8>, address: int) -> u32
    recommends
        0 <= address,
        address + 4 <= memory.len(),
{
    u32_from_be(memory.subrange(address, address + 4))
}

/// Reads one byte from memory.
pub fn memory_read_u8(memory: &[u8], address: usize) -> (byte: u8)
    requires
        address < memory@.len(),
    ensures
        byte == memory@[address as int],
{
    memory[address]
}

/// Reads four bytes from memory, in the order in which they are stored.
pub fn memory_read_4u8(memory: &[u8], address: usize) -> (bytes: [u8; 4])
    requires
        address + 4 <= memory@.len(),
    ensures
        bytes@ == memory@.subrange(address as int, address + 4),
{
    let bytes: [u8; 4] = [
        memory[address],
        memory[address + 1],
        memory[address + 2],
        memory[address + 3],
    ];
    assert(bytes@ =~= memory@.subrange(address as int, address + 4));
    bytes
}

/// Reads two bytes from memory as a half-word, more significant byte first.
pub fn memory_read_u16(memory: &[u8], address: usize) -> (half: u16)
    requires
        address + 2 <= memory@.len(),
    ensures
        half == half_at(memory@, address as int),
{
    as_u16_be(memory[address], memory[address + 1])
}

/// Reads four bytes from memory as a word, most significant byte first.
pub fn memory_read_u32(memory: &[u8], address: usize) -> (word: u32)
    requires
        address + 4 <= memory@.len(),
    ensures
        word == word_at(memory@, address as int),
{
    let bytes: [u8; 4] = memory_read_4u8(memory, address);
    as_u32_be(&bytes)
}

/// Allocates `size` zero bytes with std's `vec!` in its repeating form, which
/// yields a vector of that length whose every element is the given one.  A
/// vector cannot hold more than `isize::MAX` bytes.
#[verifier::external_body]
fn zero_filled(size: usize) -> (bytes: Vec<u8>)
    requires
        size <= isize::MAX,
    ensures
        bytes@ == zeroed(size as nat),
{
    vec![0u8; size]
}

/// The simulated address space: one byte per address, from address zero up to
/// its length.
pub struct AddressSpace {
    bytes: Vec<u8>,
}

impl View for AddressSpace {
    type V = Seq<u8>;

    closed spec fn view(&self) -> Seq<u8> {
        self.bytes@
    }
}

impl AddressSpace {
    /// An address space of `size` bytes, all zero.
    pub fn new(size: usize) -> (space: Self)
        requires
            size <= isize::MAX,
        ensures
            space@ == zeroed(size as nat),
    {
        AddressSpace { bytes: zero_filled(size) }
    }

    /// An address space that holds the given bytes, the first at address zero.
    pub fn from_bytes(bytes: Vec<u8>) -> (space: Self)
        ensures
            space@ == bytes@,
    {
        AddressSpace { bytes }
    }

    /// The number of addresses that are backed by a byte.
    pub fn len(&self) -> (size: usize)
        ensures
            size == self@.len(),
    {
        self.bytes.len()
    }

    /// The whole space as a slice, address zero first.
    pub fn as_slice(&self) -> (bytes: &[u8])
        ensures
            bytes@ == self@,
    {
        self.bytes.as_slice()
    }

    /// Copies `data` into the space from `address` on, and leaves every other
    /// byte as it was.
    pub fn write(&mut self, address: usize, data: &[u8])
        requires
            address + data@.len() <= old(self)@.len(),
        ensures
            final(self)@ == overwritten(old(self)@, address as int, data@),
    {
        let count: usize = data.len();
        let size: usize = self.bytes.len();
        let mut done: usize = 0;
        while done < count
            invariant
                done <= count,
                count == data@.len(),
                address + count <= size,
                size == self.bytes@.len(),
                self.bytes@ == overwritten(
                    old(self).bytes@,
                    address as int,
                    data@.subrange(0, done as int),
                ),
            decreases count - done,
        {
            self.bytes.set(address + done, data[done]);
            done = done + 1;
            assert(self.bytes@ =~= overwritten(
                old(self).bytes@,
                address as int,
                data@.subrange(0, done as int),
            ));
        }
        assert(data@.subrange(0, count as int) =~= data@);
    }

    /// The byte at `address`.
    pub fn read_u8(&self, address: usize) -> (byte: u8)
        requires
            address < self@.len(),
        ensures
            byte == self@[address as int],
    {
        memory_read_u8(self.bytes.as_slice(), address)
    }

    /// The half-word at `address`, more significant byte first.
    pub fn read_u16(&self, address: usize) -> (half: u16)
        requires
            address + 2 <= self@.len(),
        ensures
            half == half_at(self@, address as int),
    {
        memory_read_u16(self.bytes.as_slice(), address)
    }

    /// The word at `address`, most significant byte first.
    pub fn read_u32(&self, address: usize) -> (word: u32)
        requires
            address + 4 <= self@.len(),
        ensures
            word == word_at(self@, address as int),
    {
        memory_read_u32(self.bytes.as_slice(), address)
    }
}

} // verus!
