use bedrock::sandbox::memory::{
    align8, copy_into, read_bytes, read_i32, validate_range, write_bytes, write_i32,
    HostAllocator, HOST_ALLOC_PAGES,
};

#[test]
fn test_read_bytes_basic() {
    let mem = vec![10, 20, 30, 40, 50];
    let result = read_bytes(&mem, 1, 3).unwrap();
    assert_eq!(result, vec![20, 30, 40]);
}

#[test]
fn test_read_bytes_out_of_bounds() {
    let mem = vec![10, 20, 30];
    assert!(read_bytes(&mem, 1, 3).is_err());
    assert!(read_bytes(&mem, -1, 1).is_err());
    assert!(read_bytes(&mem, 0, -1).is_err());
}

#[test]
fn test_write_bytes_basic() {
    let mut mem = vec![0; 8];
    write_bytes(&mut mem, 2, &[0xAA, 0xBB]).unwrap();
    assert_eq!(mem[2], 0xAA);
    assert_eq!(mem[3], 0xBB);
}

#[test]
fn test_write_bytes_out_of_bounds() {
    let mut mem = vec![0; 4];
    assert!(write_bytes(&mut mem, 2, &[1, 2, 3]).is_err());
}

#[test]
fn test_read_write_i32() {
    let mut mem = vec![0; 16];
    write_i32(&mut mem, 4, 0x12345678).unwrap();
    assert_eq!(read_i32(&mem, 4).unwrap(), 0x12345678);
}

#[test]
fn test_validate_range() {
    assert!(validate_range(100, 0, 100).is_ok());
    assert!(validate_range(100, 0, 101).is_err());
    assert!(validate_range(100, -1, 1).is_err());
    assert!(validate_range(100, 50, -1).is_err());
}

#[test]
fn test_host_allocator_basic() {
    let alloc = HostAllocator::new(65536, 65536 * 4);
    let (ptr, new_bump, new_cap, grow) = alloc.compute_alloc(100);
    assert_eq!(ptr, 65536);
    assert_eq!(new_bump, 104);
    assert_eq!(new_cap, 65536 * 4);
    assert_eq!(grow, 0);
}

#[test]
fn test_host_allocator_needs_grow() {
    let alloc = HostAllocator::new(65536, 64);
    let (ptr, new_bump, new_cap, grow) = alloc.compute_alloc(100);
    assert_eq!(ptr, 65536);
    assert!(grow > 0);
    assert!(new_cap >= new_bump);
}

#[test]
fn test_host_allocator_sequential() {
    let mut alloc = HostAllocator::new(1000, 1000);
    let (ptr1, bump1, cap1, _) = alloc.compute_alloc(10);
    alloc.commit(bump1, cap1);
    let (ptr2, bump2, cap2, _) = alloc.compute_alloc(20);
    alloc.commit(bump2, cap2);

    assert_eq!(ptr1, 1000);
    assert_eq!(ptr2, 1000 + 16);
    assert!(ptr2 > ptr1);
}

#[test]
fn reads_and_writes_at_the_edges() {
    let mut mem = vec![1u8, 2, 3, 4];
    assert_eq!(read_bytes(&mem, 4, 0).unwrap(), Vec::<u8>::new());
    assert_eq!(read_bytes(&mem, 0, 4).unwrap(), vec![1, 2, 3, 4]);
    assert_eq!(read_bytes(&mem, 5, 0).unwrap_err().to_error_code(), 1);
    assert_eq!(read_bytes(&mem, i32::MAX, i32::MAX).unwrap_err().to_error_code(), 1);
    write_bytes(&mut mem, 4, &[]).unwrap();
    assert_eq!(write_bytes(&mut mem, -1, &[9]).unwrap_err().to_error_code(), 1);
    assert_eq!(write_bytes(&mut mem, 3, &[9, 9]).unwrap_err().to_error_code(), 1);
    assert_eq!(mem, vec![1, 2, 3, 4]);
    write_bytes(&mut mem, 3, &[9]).unwrap();
    assert_eq!(mem, vec![1, 2, 3, 9]);
    copy_into(&mut mem, 0, &[7, 8]);
    assert_eq!(mem, vec![7, 8, 3, 9]);
}

#[test]
fn i32_is_little_endian_two_s_complement() {
    let mut mem = vec![0u8; 8];
    write_i32(&mut mem, 0, 1).unwrap();
    assert_eq!(&mem[0..4], &[1, 0, 0, 0]);
    write_i32(&mut mem, 4, -2).unwrap();
    assert_eq!(&mem[4..8], &[0xfe, 0xff, 0xff, 0xff]);
    assert_eq!(read_i32(&mem, 4).unwrap(), -2);
    assert_eq!(read_i32(&mem, 0).unwrap(), 1);
    assert!(read_i32(&mem, 5).is_err());
    assert!(write_i32(&mut mem, 5, 0).is_err());
    assert_eq!(validate_range(8, 4, 4), Ok(()));
    assert_eq!(validate_range(8, 5, 4), Err(1));
}

#[test]
fn alignment_and_growth_are_exact() {
    assert_eq!(align8(0), 0);
    assert_eq!(align8(1), 8);
    assert_eq!(align8(8), 8);
    assert_eq!(align8(9), 16);
    assert_eq!(HOST_ALLOC_PAGES, 4);

    let alloc = HostAllocator::new(4096, 16);
    // an empty allocation still takes eight bytes
    assert_eq!(alloc.compute_alloc(0), (4096, 8, 16, 0));
    assert_eq!(alloc.compute_alloc(16), (4096, 16, 16, 0));
    // one byte over: one page more
    assert_eq!(alloc.compute_alloc(17), (4096, 24, 16 + 65536, 1));
    // a deficit of exactly one page
    assert_eq!(alloc.compute_alloc(16 + 65536), (4096, 16 + 65536, 16 + 65536, 1));
    assert_eq!(alloc.compute_alloc(17 + 65536), (4096, 24 + 65536, 16 + 2 * 65536, 2));
    assert_eq!(alloc.try_compute_alloc(17), Some((4096, 24, 16 + 65536, 1)));
    assert_eq!(alloc.try_compute_alloc(usize::MAX), None);
    let far = HostAllocator { base: usize::MAX - 10, bump: 0, capacity: 0 };
    assert_eq!(far.try_compute_alloc(1), None);
}
