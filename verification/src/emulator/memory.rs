use vstd::prelude::*;

verus! {

/// Size of the CHIP-8 address space in bytes (4 kB).
pub const DEFAULT_SIZE: usize = 4096;

/// Why an access to memory was refused.
#[derive(Debug, Clone, Copy, PartialEq, Eq, Structural)]
pub enum MemoryError {
    AddressOutOfBounds { address: u16 },
    RangeOutOfBounds { address: u16, size: usize },
}

/// Byte-addressed memory of a fixed size.
pub struct Memory {
    data: Vec<u8>,
}

/// `mem` with `bytes` written starting at `address`; cells outside the written
/// range keep their value and the length does not change.
pub open spec fn overwrite(mem: Seq<u8>, address: int, bytes: Seq<u8>) -> Seq<u8> {
    Seq::new(
        mem.len(),
        |i: int|
            if address <= i < address + bytes.len() {
                bytes[i - address]
            } else {
                mem[i]
            },
    )
}

/// A sequence of `n` zero bytes.
pub open spec fn zeros(n: nat) -> Seq<u8> {
    Seq::new(n, |i: int| 0u8)
}

/// The big-endian 16-bit word made of two bytes.
pub open spec fn word(high: u8, low: u8) -> u16 {
    (high as int * 256 + low as int) as u16
}

/// Reading back what was written gives the written bytes, and every byte
/// outside the written range keeps its value.
pub proof fn law_read_after_write(mem: Seq<u8>, address: int, bytes: Seq<u8>)
    requires
        0 <= address,
        address + bytes.len() <= mem.len(),
    ensures
        overwrite(mem, address, bytes).subrange(address, address + bytes.len()) == bytes,
        forall|i: int|
            0 <= i < mem.len() && !(address <= i < address + bytes.len()) ==> #[trigger] overwrite(
                mem,
                address,
                bytes,
            )[i] == mem[i],
        overwrite(mem, address, bytes).len() == mem.len(),
{
    assert(overwrite(mem, address, bytes).subrange(address, address + bytes.len()) =~= bytes);
}

/// The last write wins: writing the same range twice is writing the second
/// bytes once.
pub proof fn law_write_twice(mem: Seq<u8>, address: int, first: Seq<u8>, second: Seq<u8>)
    requires
        first.len() == second.len(),
    ensures
        overwrite(overwrite(mem, address, first), address, second) == overwrite(
            mem,
            address,
            second,
        ),
{
    assert(overwrite(overwrite(mem, address, first), address, second) =~= overwrite(
        mem,
        address,
        second,
    ));
}

impl View for Memory {
    type V = Seq<u8>;

    closed spec fn view(&self) -> Seq<u8> {
        self.data@
    }
}

impl Memory {
    /// Memory of the default size, every byte zero.
    pub fn new() -> (memory: Self)
        ensures
            memory@ == zeros(DEFAULT_SIZE as nat),
    {
        Self::from_size(DEFAULT_SIZE)
    }

    /// Memory of `size` bytes, every byte zero.
    pub fn from_size(size: usize) -> (memory: Self)
        ensures
            memory@ == zeros(size as nat),
    {
        let data = vec![0u8; size];
        let memory = Self { data };
        assert(memory@ =~= zeros(size as nat));
        memory
    }

    /// Number of bytes.
    pub fn len(&self) -> (n: usize)
        ensures
            n == self@.len(),
    {
        self.data.len()
    }

    /// Sets every byte back to zero; the size stays.
    pub fn reset(&mut self)
        ensures
            final(self)@ == zeros(old(self)@.len()),
    {
        let n = self.data.len();
        let mut i: usize = 0;
        while i < n
            invariant
                n == self.data@.len(),
                n == old(self)@.len(),
                i <= n,
                forall|j: int| 0 <= j < i ==> self.data@[j] == 0u8,
            decreases n - i,
        {
            self.data[i] = 0;
            i = i + 1;
        }
        assert(self@ =~= zeros(old(self)@.len()));
    }

    /// The byte at `address`, or `AddressOutOfBounds` past the end.
    pub fn read(&self, address: u16) -> (result: Result<&u8, MemoryError>)
        ensures
            match result {
                Ok(byte) => address < self@.len() && *byte == self@[address as int],
                Err(error) => address >= self@.len() && error == (MemoryError::AddressOutOfBounds { address }),
            },
    {
        let index = address as usize;
        if index < self.data.len() {
            Ok(&self.data[index])
        } else {
            Err(MemoryError::AddressOutOfBounds { address })
        }
    }

    /// The `size` bytes starting at `address`, or `RangeOutOfBounds` when the
    /// range does not lie inside memory.
    pub fn read_slice(&self, address: u16, size: usize) -> (result: Result<&[u8], MemoryError>)
        ensures
            match result {
                Ok(bytes) => address + size <= self@.len() && bytes@ == self@.subrange(
                    address as int,
                    address + size,
                ),
                Err(error) => address + size > self@.len() && error == (MemoryError::RangeOutOfBounds {
                    address,
                    size,
                }),
            },
    {
        let start = address as usize;
        let len = self.data.len();
        let end = match start.checked_add(size) {
            Some(end) => end,
            None => {
                return Err(MemoryError::RangeOutOfBounds { address, size });
            },
        };
        if end <= len {
            let all = self.data.as_slice();
            Ok(&all[start..end])
        } else {
            Err(MemoryError::RangeOutOfBounds { address, size })
        }
    }

    /// The big-endian 16-bit instruction at `address` and `address + 1`.
    pub fn fetch_instruction(&self, address: u16) -> (result: Result<u16, MemoryError>)
        ensures
            match result {
                Ok(instruction) => address + 2 <= self@.len() && instruction == word(
                    self@[address as int],
                    self@[address + 1],
                ),
                Err(error) => address + 2 > self@.len() && error == (MemoryError::RangeOutOfBounds {
                    address,
                    size: 2,
                }),
            },
    {
        match self.read_slice(address, 2) {
            Ok(bytes) => {
                let high = bytes[0] as u16;
                let low = bytes[1] as u16;
                Ok(high * 256 + low)
            },
            Err(error) => Err(error),
        }
    }

    /// Stores `value` at `address`, or leaves memory as it was and returns
    /// `AddressOutOfBounds` past the end.
    pub fn write(&mut self, address: u16, value: u8) -> (result: Result<(), MemoryError>)
        ensures
            match result {
                Ok(()) => address < old(self)@.len() && final(self)@ == old(self)@.update(
                    address as int,
                    value,
                ),
                Err(error) => address >= old(self)@.len() && final(self)@ == old(self)@ && error
                    == (MemoryError::AddressOutOfBounds { address }),
            },
    {
        let index = address as usize;
        if index < self.data.len() {
            self.data[index] = value;
            Ok(())
        } else {
            Err(MemoryError::AddressOutOfBounds { address })
        }
    }

    /// Stores `bytes` starting at `address`, or leaves memory as it was and
    /// returns `RangeOutOfBounds` when they do not fit.
    pub fn write_slice(&mut self, address: u16, bytes: &[u8]) -> (result: Result<(), MemoryError>)
        ensures
            match result {
                Ok(()) => address + bytes@.len() <= old(self)@.len() && final(self)@ == overwrite(
                    old(self)@,
                    address as int,
                    bytes@,
                ),
                Err(error) => address + bytes@.len() > old(self)@.len() && final(self)@ == old(
                    self,
                )@ && error == (MemoryError::RangeOutOfBounds { address, size: bytes@.len() as usize }),
            },
    {
        let start = address as usize;
        let size = bytes.len();
        if size > self.data.len() || start > self.data.len() - size {
            return Err(MemoryError::RangeOutOfBounds { address, size });
        }
        let mut i: usize = 0;
        while i < size
            invariant
                size == bytes@.len(),
                start == address,
                start + size <= self.data@.len(),
                start + size <= usize::MAX,
                self.data@.len() == old(self)@.len(),
                i <= size,
                forall|j: int|
                    0 <= j < self.data@.len() ==> self.data@[j] == (if start <= j < start + i {
                        bytes@[j - start]
                    } else {
                        old(self)@[j]
                    }),
            decreases size - i,
        {
            self.data[start + i] = bytes[i];
            i = i + 1;
        }
        assert(self@ =~= overwrite(old(self)@, address as int, bytes@));
        Ok(())
    }
}

} // verus!
