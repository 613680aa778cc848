use intel_hex::memory::Memory;
use intel_hex::memory::SimpleMemory;

#[test]
fn simple_get_byte() {
    let mem = SimpleMemory::new(16);
    for address in 0..15 {
        assert_eq!(mem.get_byte(address), 0);
    }
}

#[test]
fn simple_get_bytes() {
    let mem = SimpleMemory::new(16);
    for address in 0..15 {
        let count = 16 - address;
        assert_eq!(mem.get_bytes(address, count), vec![0; count].as_slice());
    }
}

#[test]
fn new_memory_is_all_zero() {
    let mem = SimpleMemory::new(16);
    for address in 0..16 {
        assert_eq!(mem.get_byte(address), 0);
    }
}

#[test]
fn new_memory_ranges_are_zero() {
    let mem = SimpleMemory::new(16);
    for address in 0..17 {
        for count in 0..(16 - address + 1) {
            assert_eq!(mem.get_bytes(address, count), vec![0; count].as_slice());
        }
    }
}

#[test]
fn zero_sized_memory() {
    let mem = SimpleMemory::new(0);
    assert_eq!(mem.get_bytes(0, 0), &[]);
}

#[test]
fn write_byte_then_read_it_back() {
    let mut mem = SimpleMemory::new(8);
    mem.write_byte(3, 0xAB);
    assert_eq!(mem.get_byte(3), 0xAB);
    for address in 0..8 {
        if address != 3 {
            assert_eq!(mem.get_byte(address), 0);
        }
    }
}

#[test]
fn write_range_then_read_it_back() {
    let mut mem = SimpleMemory::new(8);
    mem.write_range(2, &[0x01, 0x02, 0x03]);
    assert_eq!(mem.get_bytes(2, 3), &[0x01, 0x02, 0x03]);
    assert_eq!(mem.get_bytes(0, 2), &[0, 0]);
    assert_eq!(mem.get_bytes(5, 3), &[0, 0, 0]);
}

#[test]
fn write_range_overwrites_exactly() {
    let mut mem = SimpleMemory::new(4);
    mem.write_range(0, &[0x11, 0x22, 0x33, 0x44]);
    mem.write_range(1, &[0xAA, 0xBB]);
    assert_eq!(mem.get_bytes(0, 4), &[0x11, 0xAA, 0xBB, 0x44]);
}
