//! Address-space tests: segment resolution at the boundaries, the
//! allocator lifecycle, the initial layout, and the byte utilities.

use simulator::memory::Memory;
use simulator::memory::SegmentImage;
use simulator::memory::STACK_BASE;
use simulator::memory::STACK_SIZE;
use simulator::memory::STACK_TOP;
use simulator::util::from_u32;
use simulator::util::to_u32;

fn space_with_one_segment() -> Memory {
    Memory::new(
        vec![SegmentImage { start: 0x1000, size: 8, data: vec![1, 2, 3, 4] }],
        0x1000,
    )
}

#[test]
fn segment_resolution_at_boundaries() {
    let mem = space_with_one_segment();
    // exact first byte
    assert_eq!(mem.read(0x1000, 1).unwrap(), vec![1]);
    // exact last byte (the zero fill past the initial bytes)
    assert_eq!(mem.read(0x1007, 1).unwrap(), vec![0]);
    // one past the last byte
    assert!(mem.read(0x1008, 1).is_err());
    // below the first byte
    assert!(mem.read(0x0FFF, 1).is_err());
    // a read that starts inside but runs past the end
    assert!(mem.read(0x1006, 4).is_err());
}

#[test]
fn write_at_boundaries() {
    let mut mem = space_with_one_segment();
    assert!(mem.read_mut(0x1000, &[9]).is_ok());
    assert!(mem.read_mut(0x1007, &[8]).is_ok());
    assert!(mem.read_mut(0x1008, &[7]).is_err());
    assert!(mem.read_mut(0x1006, &[1, 2, 3]).is_err());
    assert_eq!(mem.read(0x1000, 8).unwrap(), vec![9, 2, 3, 4, 0, 0, 0, 8]);
}

#[test]
fn zero_fill_past_initial_bytes() {
    let mem = space_with_one_segment();
    assert_eq!(mem.read(0x1000, 8).unwrap(), vec![1, 2, 3, 4, 0, 0, 0, 0]);
}

#[test]
fn initial_layout() {
    let mem = Memory::new(vec![], 0x42);
    assert_eq!(mem.get_pc(), 0x42);
    assert_eq!(mem.get_register(2), STACK_TOP);
    assert_eq!(STACK_TOP, STACK_BASE + STACK_SIZE);
    for i in 0..32u8 {
        if i != 2 {
            assert_eq!(mem.get_register(i), 0);
        }
    }
    // the stack region is mapped and zeroed
    assert_eq!(mem.read(STACK_BASE as usize, 4).unwrap(), vec![0, 0, 0, 0]);
    assert_eq!(mem.read(STACK_TOP as usize - 1, 1).unwrap(), vec![0]);
    // the top of the stack is one past the region
    assert!(mem.read(STACK_TOP as usize, 1).is_err());
}

#[test]
fn register_zero_is_immutable_at_the_write_boundary() {
    let mut mem = Memory::new(vec![], 0);
    mem.set_register(123, 0);
    assert_eq!(mem.get_register(0), 0);
    mem.set_register(123, 1);
    assert_eq!(mem.get_register(1), 123);
}

#[test]
fn allocator_lifecycle() {
    let mut mem = Memory::new(vec![], 0);
    let a = mem.malloc(16, 0);
    // the heap begins right after the stack region, already 4-byte aligned
    assert_eq!(a, STACK_TOP);
    assert_eq!(mem.read(a as usize, 16).unwrap(), vec![0u8; 16]);
    assert_eq!(mem.free(a), 0);
    // a second release of the same address fails
    assert_eq!(mem.free(a), 1);
    // releasing a persistent segment's start fails
    assert_eq!(mem.free(STACK_BASE), 1);
    // releasing an address that is no segment start fails
    assert_eq!(mem.free(0x1234), 1);
}

#[test]
fn allocation_is_aligned_and_disjoint() {
    let mut mem = Memory::new(vec![], 0);
    let a = mem.malloc(3, 0xAB);
    let b = mem.malloc(5, 0xCD);
    // the second segment starts after the first, rounded up to 4 bytes
    assert_eq!(b, a + 4);
    assert_eq!(mem.read(a as usize, 3).unwrap(), vec![0xAB; 3]);
    assert_eq!(mem.read(b as usize, 5).unwrap(), vec![0xCD; 5]);
    // the fill byte of one allocation never leaks into the other
    assert!(mem.read(a as usize, 4).is_err());
}

#[test]
fn freed_segment_is_unmapped() {
    let mut mem = Memory::new(vec![], 0);
    let a = mem.malloc(8, 7);
    assert_eq!(mem.read(a as usize, 8).unwrap(), vec![7u8; 8]);
    assert_eq!(mem.free(a), 0);
    assert!(mem.read(a as usize, 1).is_err());
}

#[test]
fn pc_accessors() {
    let mut mem = Memory::new(vec![], 0x100);
    assert_eq!(mem.get_pc(), 0x100);
    mem.incr_pc();
    assert_eq!(mem.get_pc(), 0x104);
    mem.set_pc(0xFFFF_FFFC);
    mem.incr_pc();
    // the counter wraps at the 32-bit boundary
    assert_eq!(mem.get_pc(), 0);
}

#[test]
fn word_byte_conversions_are_little_endian() {
    assert_eq!(to_u32(&[0xBE, 0xBA, 0xFE, 0xCA]), 0xCAFE_BABE);
    assert_eq!(from_u32(0xCAFE_BABE), [0xBE, 0xBA, 0xFE, 0xCA]);
    for v in [0u32, 1, 0xFF, 0x100, 0xFFFF_FFFF, 0x8000_0000, 0x1234_5678] {
        assert_eq!(to_u32(&from_u32(v)), v);
    }
}
