use rv::cpu::memory::{zeroed_buffer, Memory, MemoryError, PAGE_SIZE};

#[test]
fn fresh_memory_maps_the_initial_regions() {
    let m = Memory::new();
    assert_eq!(m.load_u8(0x10000), Ok(0));
    assert_eq!(m.load_u8(0x0fff_ffff), Ok(0));
    assert_eq!(m.load_u8(0xffff_ffff), Ok(0));
    assert_eq!(m.load_u8(0), Err(MemoryError::OutOfBoundsLoad(0)));
    assert_eq!(m.load_u8(0xffff), Err(MemoryError::OutOfBoundsLoad(0xffff)));
    assert_eq!(m.load_u8(0x1000_0000), Err(MemoryError::OutOfBoundsLoad(0x1000_0000)));
    assert_eq!(m.load_u8(0xe000_1000), Err(MemoryError::OutOfBoundsLoad(0xe000_1000)));
}

#[test]
fn trap_page_holds_ebreak_then_ret() {
    let m = Memory::new();
    assert_eq!(m.load_u32(0xe000_0000), Ok(0x8082_9002));
    assert_eq!(m.load_u16(0xe000_0004), Ok(0x9002));
    assert_eq!(m.load_u32(0xe000_0ffc), Ok(0x8082_9002));
}

#[test]
fn load_after_store_gives_the_value_back() {
    let mut m = Memory::new();
    assert_eq!(m.store_u32(0x10000, 0xdead_beef), Ok(()));
    assert_eq!(m.load_u32(0x10000), Ok(0xdead_beef));
    assert_eq!(m.load_u8(0x10000), Ok(0xef));
    assert_eq!(m.load_u8(0x10003), Ok(0xde));
    assert_eq!(m.load_u16(0x10002), Ok(0xdead));
    assert_eq!(m.load_i16(0x10002), Ok(0xdeadu16 as i16));
    assert_eq!(m.load_i8(0x10003), Ok(0xdeu8 as i8));
    assert_eq!(m.load_u8(0x10004), Ok(0));
    assert_eq!(m.store_u64(0x20000, 0x0123_4567_89ab_cdef), Ok(()));
    assert_eq!(m.load_u64(0x20000), Ok(0x0123_4567_89ab_cdef));
    assert_eq!(m.store_u16(0x30001, 0xbeef), Ok(()));
    assert_eq!(m.load_u16(0x30001), Ok(0xbeef));
    assert_eq!(m.store_u8(0x40000, 7), Ok(()));
    assert_eq!(m.load_u8(0x40000), Ok(7));
}

#[test]
fn unmapped_accesses_fail() {
    let mut m = Memory::new();
    assert_eq!(m.store_u32(0x100, 1), Err(MemoryError::OutOfBoundsStore(0x100)));
    assert_eq!(m.load_u32(0x100), Err(MemoryError::OutOfBoundsLoad(0x100)));
    // a word that straddles the end of a region fails at the first unmapped byte
    assert_eq!(m.load_u32(0x0fff_fffe), Err(MemoryError::OutOfBoundsLoad(0x1000_0000)));
}

#[test]
fn store_writes_up_to_the_first_unmapped_byte() {
    let mut m = Memory::new();
    assert_eq!(m.store_u32(0x0fff_fffe, 0x4433_2211), Err(MemoryError::OutOfBoundsStore(0x1000_0000)));
    assert_eq!(m.load_u8(0x0fff_fffe), Ok(0x11));
    assert_eq!(m.load_u8(0x0fff_ffff), Ok(0x22));
}

#[test]
fn failed_store_at_first_byte_changes_nothing() {
    let mut m = Memory::new();
    assert_eq!(m.store_u32(0xffff, 0xffff_ffff), Err(MemoryError::OutOfBoundsStore(0xffff)));
    assert_eq!(m.load_u8(0x10000), Ok(0));
}

#[test]
fn mount_then_load_gives_the_buffer() {
    let mut m = Memory::new();
    let mut buf = zeroed_buffer(2 * PAGE_SIZE as usize);
    buf[5] = 0xaa;
    buf[PAGE_SIZE as usize + 1] = 0xbb;
    assert_eq!(m.mount(buf, 0x2000_0000), Ok(()));
    assert_eq!(m.load_u8(0x2000_0005), Ok(0xaa));
    assert_eq!(m.load_u8(0x2000_1001), Ok(0xbb));
    assert_eq!(m.load_u8(0x2000_2000), Err(MemoryError::OutOfBoundsLoad(0x2000_2000)));
    assert_eq!(m.load_u8(0x1fff_ffff), Err(MemoryError::OutOfBoundsLoad(0x1fff_ffff)));
}

#[test]
fn mount_refusals() {
    let mut m = Memory::new();
    assert_eq!(m.mount(zeroed_buffer(100), 0x2000_0000), Err(MemoryError::BufferNotPageSized));
    assert_eq!(m.mount(zeroed_buffer(0x1000), 0x2000_0001), Err(MemoryError::AddressNotPageAligned));
    assert_eq!(m.mount(zeroed_buffer(0x2000), 0xffff_f000), Err(MemoryError::RegionOutOfRange));
    assert_eq!(m.mount(zeroed_buffer(0x1000), 0x10000), Err(MemoryError::PageAlreadyMapped(0x10)));
    // the pages before the first mapped one are mounted
    assert_eq!(m.mount(zeroed_buffer(0x3000), 0xe000), Err(MemoryError::PageAlreadyMapped(0x10)));
    assert_eq!(m.load_u8(0xe000), Ok(0));
    assert_eq!(m.load_u8(0xf000), Ok(0));
}

#[test]
fn zeroed_buffer_is_all_zero() {
    let b = zeroed_buffer(16);
    assert_eq!(b, vec![0u8; 16]);
}
