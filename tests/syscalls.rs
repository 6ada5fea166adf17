use wasi_host::{
    environ_get, environ_sizes_get, fd_close, fd_prestat_dir_name, fd_prestat_get, fd_write,
    fd_write_complete, path_open, proc_exit, FdWrite, GuestMemory, Resource, ResourceTable, Stream,
    Trap, WriteRequest, ERRNO_BADF, ERRNO_INVAL, ERRNO_NOTSUP, ERRNO_SUCCESS, ROOT_FD,
};

fn put_u32(bytes: &mut [u8], at: usize, v: u32) {
    bytes[at..at + 4].copy_from_slice(&v.to_le_bytes());
}

fn get_u32(bytes: &[u8], at: usize) -> u32 {
    u32::from_le_bytes([bytes[at], bytes[at + 1], bytes[at + 2], bytes[at + 3]])
}

/// A 512-byte memory holding the descriptor list `iovecs` at offset 0 and
/// each `(offset, bytes)` of `chunks`.
fn memory_with(iovecs: &[(u32, u32)], chunks: &[(usize, &[u8])]) -> GuestMemory {
    let mut bytes = vec![0xAAu8; 512];
    for (i, (ptr, len)) in iovecs.iter().enumerate() {
        put_u32(&mut bytes, 8 * i, *ptr);
        put_u32(&mut bytes, 8 * i + 4, *len);
    }
    for (at, chunk) in chunks {
        bytes[*at..*at + chunk.len()].copy_from_slice(chunk);
    }
    GuestMemory::from_bytes(bytes)
}

fn expect_write(plan: FdWrite) -> WriteRequest {
    match plan {
        FdWrite::Perform(req) => req,
        FdWrite::Status(s) => panic!("expected a write, got status {}", s),
        FdWrite::Trap(t) => panic!("expected a write, got trap {:?}", t),
    }
}

fn expect_status(plan: FdWrite) -> u32 {
    match plan {
        FdWrite::Status(s) => s,
        FdWrite::Perform(req) => panic!("expected a status, got a write to {:?}", req.target),
        FdWrite::Trap(t) => panic!("expected a status, got trap {:?}", t),
    }
}

#[test]
fn two_ranges_to_stdout_write_hello() {
    let table = ResourceTable::with_standard_streams();
    let mut mem = memory_with(&[(100, 2), (200, 3)], &[(100, b"He"), (200, b"llo")]);
    let req = expect_write(fd_write(&table, &mem, Some(1), 0, 2, 300));
    assert_eq!(req.target, Stream::StandardOutput);
    assert_eq!(req.data, b"Hello".to_vec());
    assert_eq!(req.nwritten_ptr, 300);
    assert_eq!(fd_write_complete(&mut mem, &req, req.data.len()), Ok(ERRNO_SUCCESS));
    assert_eq!(get_u32(&mem.into_bytes(), 300), 5);
}

#[test]
fn stderr_gets_the_concatenation_in_order() {
    let table = ResourceTable::with_standard_streams();
    let mem = memory_with(&[(300, 1), (100, 3), (200, 0), (150, 2)], &[
        (100, b"bcd"),
        (150, b"ef"),
        (300, b"a"),
    ]);
    let req = expect_write(fd_write(&table, &mem, Some(2), 0, 4, 400));
    assert_eq!(req.target, Stream::StandardError);
    assert_eq!(req.data, b"abcdef".to_vec());
}

#[test]
fn splitting_a_range_keeps_the_bytes() {
    let table = ResourceTable::with_standard_streams();
    let whole = memory_with(&[(100, 5)], &[(100, b"Hello")]);
    let split = memory_with(&[(100, 2), (102, 3)], &[(100, b"Hello")]);
    let a = expect_write(fd_write(&table, &whole, Some(1), 0, 1, 300));
    let b = expect_write(fd_write(&table, &split, Some(1), 0, 2, 300));
    assert_eq!(a.data, b.data);
    assert_eq!(a.data.len(), 5);
}

#[test]
fn empty_descriptor_list_writes_nothing() {
    let table = ResourceTable::with_standard_streams();
    let mut mem = memory_with(&[], &[]);
    let req = expect_write(fd_write(&table, &mem, Some(1), 0, 0, 300));
    assert!(req.data.is_empty());
    assert_eq!(fd_write_complete(&mut mem, &req, 0), Ok(ERRNO_SUCCESS));
    assert_eq!(get_u32(&mem.into_bytes(), 300), 0);
}

#[test]
fn partial_write_is_reported_as_taken() {
    let table = ResourceTable::with_standard_streams();
    let mut mem = memory_with(&[(100, 5)], &[(100, b"Hello")]);
    let req = expect_write(fd_write(&table, &mem, Some(1), 0, 1, 300));
    assert_eq!(fd_write_complete(&mut mem, &req, 3), Ok(ERRNO_SUCCESS));
    assert_eq!(get_u32(&mem.into_bytes(), 300), 3);
}

#[test]
fn written_count_is_kept_modulo_two_to_the_32() {
    let table = ResourceTable::with_standard_streams();
    let mut mem = memory_with(&[(100, 1)], &[]);
    let req = expect_write(fd_write(&table, &mem, Some(1), 0, 1, 300));
    assert_eq!(fd_write_complete(&mut mem, &req, (1usize << 32) + 7), Ok(ERRNO_SUCCESS));
    assert_eq!(get_u32(&mem.into_bytes(), 300), 7);
}

#[test]
fn write_to_stdin_is_invalid() {
    let table = ResourceTable::with_standard_streams();
    let mem = memory_with(&[(100, 2)], &[(100, b"He")]);
    assert_eq!(expect_status(fd_write(&table, &mem, Some(0), 0, 1, 300)), ERRNO_INVAL);
}

#[test]
fn write_to_stdin_is_invalid_even_with_a_bad_list() {
    let table = ResourceTable::with_standard_streams();
    let mem = memory_with(&[(10_000, 2)], &[]);
    assert_eq!(expect_status(fd_write(&table, &mem, Some(0), 0, 1_000, 9_999)), ERRNO_INVAL);
}

#[test]
fn write_to_root_directory_is_invalid() {
    let table = ResourceTable::with_standard_streams();
    let mem = memory_with(&[(100, 2)], &[]);
    assert_eq!(expect_status(fd_write(&table, &mem, Some(ROOT_FD), 0, 1, 300)), ERRNO_INVAL);
}

#[test]
fn write_to_unknown_or_null_capability_is_bad() {
    let table = ResourceTable::with_standard_streams();
    let mem = memory_with(&[(100, 2)], &[]);
    assert_eq!(expect_status(fd_write(&table, &mem, Some(99), 0, 1, 300)), ERRNO_BADF);
    assert_eq!(expect_status(fd_write(&table, &mem, None, 0, 1, 300)), ERRNO_BADF);
}

#[test]
fn write_with_range_outside_memory_traps() {
    let table = ResourceTable::with_standard_streams();
    let mem = memory_with(&[(510, 4)], &[]);
    match fd_write(&table, &mem, Some(1), 0, 1, 300) {
        FdWrite::Trap(t) => assert_eq!(t, Trap::OutOfBounds),
        _ => panic!("expected a trap"),
    }
}

#[test]
fn write_with_list_outside_memory_traps() {
    let table = ResourceTable::with_standard_streams();
    let mem = memory_with(&[], &[]);
    match fd_write(&table, &mem, Some(1), 500, 2, 300) {
        FdWrite::Trap(t) => assert_eq!(t, Trap::OutOfBounds),
        _ => panic!("expected a trap"),
    }
}

#[test]
fn write_with_count_pointer_outside_memory_traps() {
    let table = ResourceTable::with_standard_streams();
    let mem = memory_with(&[(100, 1)], &[]);
    match fd_write(&table, &mem, Some(1), 0, 1, 510) {
        FdWrite::Trap(t) => assert_eq!(t, Trap::OutOfBounds),
        _ => panic!("expected a trap"),
    }
}

#[test]
fn write_to_network_stream_targets_it() {
    let mut table = ResourceTable::with_standard_streams();
    let fd = table.insert(Resource::NetworkStream(7)).unwrap();
    assert_eq!(fd, 4);
    let mem = memory_with(&[(100, 3)], &[(100, b"abc")]);
    let req = expect_write(fd_write(&table, &mem, Some(fd), 0, 1, 300));
    assert_eq!(req.target, Stream::Network(7));
    assert_eq!(req.data, b"abc".to_vec());
}

#[test]
fn closed_capability_is_refused_everywhere() {
    let mut table = ResourceTable::with_standard_streams();
    assert_eq!(fd_close(&mut table, 1), ERRNO_SUCCESS);
    let mem = memory_with(&[(100, 2)], &[(100, b"He")]);
    assert_eq!(expect_status(fd_write(&table, &mem, Some(1), 0, 1, 300)), ERRNO_BADF);
    assert_eq!(fd_close(&mut table, 1), ERRNO_BADF);
    assert_eq!(table.get(1), None);
}

#[test]
fn closed_root_is_refused() {
    let mut table = ResourceTable::with_standard_streams();
    let mut mem = memory_with(&[], &[]);
    assert_eq!(fd_close(&mut table, ROOT_FD), ERRNO_SUCCESS);
    assert_eq!(fd_prestat_get(&table, &mut mem, ROOT_FD, 64), Ok(ERRNO_BADF));
    assert_eq!(fd_prestat_dir_name(&table, ROOT_FD, 0, 0), Ok(ERRNO_INVAL));
}

#[test]
fn close_of_unknown_capability_is_bad() {
    let mut table = ResourceTable::with_standard_streams();
    assert_eq!(fd_close(&mut table, 42), ERRNO_BADF);
    assert_eq!(table.get(0), Some(Resource::StandardInput));
}

#[test]
fn minted_capability_never_reuses_a_closed_one() {
    let mut table = ResourceTable::with_standard_streams();
    let a = table.insert(Resource::NetworkStream(0)).unwrap();
    assert_eq!(fd_close(&mut table, a), ERRNO_SUCCESS);
    let b = table.insert(Resource::NetworkStream(1)).unwrap();
    assert_ne!(a, b);
    assert_eq!(table.get(a), None);
    assert_eq!(table.get(b), Some(Resource::NetworkStream(1)));
}

#[test]
fn empty_table_holds_nothing() {
    let table = ResourceTable::empty();
    let mem = memory_with(&[(100, 2)], &[]);
    assert_eq!(table.get(0), None);
    assert_eq!(expect_status(fd_write(&table, &mem, Some(1), 0, 1, 300)), ERRNO_BADF);
}

#[test]
fn prestat_of_root_is_an_unnamed_directory() {
    let table = ResourceTable::with_standard_streams();
    let mut mem = GuestMemory::from_bytes(vec![0xFFu8; 64]);
    assert_eq!(fd_prestat_get(&table, &mut mem, ROOT_FD, 16), Ok(ERRNO_SUCCESS));
    let bytes = mem.into_bytes();
    assert_eq!(bytes[16], 0);
    assert_eq!(get_u32(&bytes, 20), 0);
    assert_eq!(bytes[15], 0xFF);
    assert_eq!(bytes[24], 0xFF);
}

#[test]
fn prestat_of_other_capability_is_bad() {
    let table = ResourceTable::with_standard_streams();
    let mut mem = GuestMemory::from_bytes(vec![0xFFu8; 64]);
    assert_eq!(fd_prestat_get(&table, &mut mem, 99, 16), Ok(ERRNO_BADF));
    assert_eq!(fd_prestat_get(&table, &mut mem, 1, 16), Ok(ERRNO_BADF));
    assert_eq!(mem.into_bytes(), vec![0xFFu8; 64]);
}

#[test]
fn prestat_outside_memory_traps() {
    let table = ResourceTable::with_standard_streams();
    let mut mem = GuestMemory::from_bytes(vec![0xFFu8; 64]);
    assert_eq!(fd_prestat_get(&table, &mut mem, ROOT_FD, 60), Err(Trap::OutOfBounds));
    assert_eq!(mem.into_bytes(), vec![0xFFu8; 64]);
}

#[test]
fn prestat_dir_name_accepts_only_zero_length_on_root() {
    let table = ResourceTable::with_standard_streams();
    assert_eq!(fd_prestat_dir_name(&table, ROOT_FD, 0, 0), Ok(ERRNO_SUCCESS));
    assert_eq!(fd_prestat_dir_name(&table, ROOT_FD, 0, 5), Err(Trap::DirNameLength(5)));
    assert_eq!(fd_prestat_dir_name(&table, 4, 0, 0), Ok(ERRNO_INVAL));
    assert_eq!(fd_prestat_dir_name(&table, 1, 0, 0), Ok(ERRNO_INVAL));
}

#[test]
fn environment_is_empty() {
    let mut mem = GuestMemory::from_bytes(vec![0xFFu8; 32]);
    assert_eq!(environ_sizes_get(&mut mem, 0, 8), Ok(ERRNO_SUCCESS));
    let bytes = mem.into_bytes();
    assert_eq!(get_u32(&bytes, 0), 0);
    assert_eq!(get_u32(&bytes, 8), 0);
    assert_eq!(bytes[4], 0xFF);
    assert_eq!(environ_get(0, 8), ERRNO_NOTSUP);
}

#[test]
fn environ_sizes_outside_memory_traps() {
    let mut mem = GuestMemory::from_bytes(vec![0xFFu8; 32]);
    assert_eq!(environ_sizes_get(&mut mem, 0, 30), Err(Trap::OutOfBounds));
    assert_eq!(mem.into_bytes(), vec![0xFFu8; 32]);
}

#[test]
fn proc_exit_always_traps() {
    assert_eq!(proc_exit(0), Trap::ProcExit(0));
    assert_eq!(proc_exit(-3), Trap::ProcExit(-3));
}

#[test]
fn path_open_is_not_supported() {
    assert_eq!(path_open(Some(ROOT_FD), 0, 0, 4, 0, 0, 0, 0), ERRNO_NOTSUP);
}

#[test]
fn memory_reads_and_writes_little_endian() {
    let mut mem = GuestMemory::from_bytes(vec![0u8; 8]);
    assert!(mem.write_u32(2, 0x0403_0201));
    assert_eq!(mem.read_u32(2), Some(0x0403_0201));
    assert_eq!(mem.read_u32(5), None);
    assert!(!mem.write_u32(6, 1));
    assert_eq!(mem.read_bytes(2, 4), Some(vec![1, 2, 3, 4]));
    assert_eq!(mem.read_bytes(7, 2), None);
    assert_eq!(mem.len(), 8);
}
