use chip8::emulator::memory::{Memory, MemoryError, DEFAULT_SIZE};

#[test]
fn new_memory_is_zeroed_and_default_sized() {
    let memory = Memory::new();
    assert_eq!(memory.len(), DEFAULT_SIZE);
    assert_eq!(*memory.read(0).unwrap(), 0);
    assert_eq!(*memory.read(4095).unwrap(), 0);
}

#[test]
fn read_past_the_end_is_refused() {
    let memory = Memory::from_size(16);
    assert_eq!(memory.read(16).err(), Some(MemoryError::AddressOutOfBounds { address: 16 }));
    assert!(memory.read(15).is_ok());
}

#[test]
fn write_then_read_gives_the_value() {
    let mut memory = Memory::from_size(16);
    assert_eq!(memory.write(3, 0xAB), Ok(()));
    assert_eq!(*memory.read(3).unwrap(), 0xAB);
    assert_eq!(*memory.read(2).unwrap(), 0);
    assert_eq!(memory.write(16, 1), Err(MemoryError::AddressOutOfBounds { address: 16 }));
}

#[test]
fn read_slice_bounds() {
    let mut memory = Memory::from_size(8);
    memory.write_slice(2, &[1, 2, 3]).unwrap();
    assert_eq!(memory.read_slice(2, 3).unwrap(), &[1, 2, 3]);
    assert_eq!(memory.read_slice(0, 8).unwrap(), &[0, 0, 1, 2, 3, 0, 0, 0]);
    assert_eq!(memory.read_slice(8, 0).unwrap(), &[] as &[u8]);
    assert_eq!(
        memory.read_slice(6, 3).err(),
        Some(MemoryError::RangeOutOfBounds { address: 6, size: 3 })
    );
    assert_eq!(
        memory.read_slice(1, usize::MAX).err(),
        Some(MemoryError::RangeOutOfBounds { address: 1, size: usize::MAX })
    );
}

#[test]
fn fetch_instruction_is_big_endian() {
    let mut memory = Memory::new();
    memory.write_slice(0x200, &[0x12, 0x34]).unwrap();
    assert_eq!(memory.fetch_instruction(0x200), Ok(0x1234));
    assert_eq!(memory.fetch_instruction(0x201), Ok(0x3400));
    assert_eq!(
        memory.fetch_instruction(4095),
        Err(MemoryError::RangeOutOfBounds { address: 4095, size: 2 })
    );
}

#[test]
fn write_slice_that_does_not_fit_changes_nothing() {
    let mut memory = Memory::from_size(4);
    memory.write_slice(0, &[9, 9, 9, 9]).unwrap();
    assert_eq!(
        memory.write_slice(2, &[1, 2, 3]),
        Err(MemoryError::RangeOutOfBounds { address: 2, size: 3 })
    );
    assert_eq!(memory.read_slice(0, 4).unwrap(), &[9, 9, 9, 9]);
}

#[test]
fn last_write_wins() {
    let mut memory = Memory::from_size(4);
    memory.write_slice(1, &[1, 2]).unwrap();
    memory.write_slice(1, &[7, 8]).unwrap();
    assert_eq!(memory.read_slice(0, 4).unwrap(), &[0, 7, 8, 0]);
}

#[test]
fn reset_zeroes_and_keeps_size() {
    let mut memory = Memory::from_size(32);
    memory.write_slice(0, &[5; 32]).unwrap();
    memory.reset();
    assert_eq!(memory.len(), 32);
    assert_eq!(memory.read_slice(0, 32).unwrap(), &[0u8; 32]);
}
