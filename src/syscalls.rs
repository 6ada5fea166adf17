use vstd::prelude::*;
use crate::errno::{ERRNO_BADF, ERRNO_INVAL, ERRNO_NOTSUP, ERRNO_SUCCESS};
use crate::iovec::{gather, gather_iovecs, iovec_ranges, iovecs_readable};
use crate::memory::{GuestMemory, in_bounds, le_u32, put_bytes, u32_le_bytes};
use crate::resources::{lookup, Resource, ResourceTable, ROOT_FD};

verus! {

/// Why a call stops the guest instead of returning to it.
#[derive(Clone, Copy, Debug, PartialEq, Eq, Structural)]
pub enum Trap {
    /// The guest asked to exit with this code.
    ProcExit(i32),
    /// An argument names guest memory that lies outside the guest's memory.
    OutOfBounds,
    /// `fd_prestat_dir_name` was asked for a name length other than the one
    /// that `fd_prestat_get` reported.
    DirNameLength(u32),
}

/// A host stream that accepts writes.
#[derive(Clone, Copy, Debug, PartialEq, Eq, Structural)]
pub enum Stream {
    StandardOutput,
    StandardError,
    /// A network stream, by its index among the host's open streams.
    Network(u32),
}

/// A write that the host is to perform on behalf of `fd_write`.
pub struct WriteRequest {
    pub target: Stream,
    /// The bytes of the descriptor list, in order.
    pub data: Vec<u8>,
    /// Where the guest wants the count of bytes written.
    pub nwritten_ptr: u32,
}

/// What `fd_write` decided.
pub enum FdWrite {
    /// Return this status to the guest; nothing is written.
    Status(u32),
    /// Stop the guest.
    Trap(Trap),
    /// Perform the write, then report it through `fd_write_complete`.
    Perform(WriteRequest),
}

/// Size in guest memory of a prestat record: a one-byte tag, padding, and the
/// `u32` length of the directory's name at offset 4.
pub const PRESTAT_SIZE: u64 = 8;

/// The stream that writes to `r` go to, if `r` accepts writes.
pub open spec fn write_target(r: Resource) -> Option<Stream> {
    match r {
        Resource::StandardOutput => Some(Stream::StandardOutput),
        Resource::StandardError => Some(Stream::StandardError),
        Resource::NetworkStream(i) => Some(Stream::Network(i)),
        _ => None,
    }
}

/// The status with which `fd_write` on `fd` is refused before any memory is
/// read: `EBADF` for a null or closed capability, `EINVAL` for one whose
/// resource accepts no writes.
pub open spec fn write_rejection(t: Map<u32, Resource>, fd: Option<u32>) -> Option<u32> {
    match fd {
        None => Some(ERRNO_BADF),
        Some(f) => match lookup(t, f) {
            None => Some(ERRNO_BADF),
            Some(r) => if write_target(r) is None {
                Some(ERRNO_INVAL)
            } else {
                None
            },
        },
    }
}

/// The status `fd_close` returns on `fd`.
pub open spec fn close_status(t: Map<u32, Resource>, fd: u32) -> u32 {
    if t.contains_key(fd) {
        ERRNO_SUCCESS
    } else {
        ERRNO_BADF
    }
}

/// `fd` is the preopened root, and it is still open.
pub open spec fn is_open_root(t: Map<u32, Resource>, fd: u32) -> bool {
    fd == ROOT_FD && lookup(t, fd) == Some(Resource::PreopenedRoot)
}

/// The status `fd_prestat_get` returns on `fd`, where its record fits.
pub open spec fn prestat_status(t: Map<u32, Resource>, fd: u32) -> u32 {
    if is_open_root(t, fd) {
        ERRNO_SUCCESS
    } else {
        ERRNO_BADF
    }
}

/// The prestat record of a directory whose name has `name_len` bytes.
pub open spec fn prestat_dir_bytes(name_len: u32) -> Seq<u8> {
    seq![0u8, 0u8, 0u8, 0u8] + u32_le_bytes(name_len)
}

/// What `fd_prestat_dir_name` returns on `fd` with a buffer of `len` bytes.
pub open spec fn prestat_dir_name_result(t: Map<u32, Resource>, fd: u32, len: u32) -> Result<
    u32,
    Trap,
> {
    if !is_open_root(t, fd) {
        Ok(ERRNO_INVAL)
    } else if len == 0 {
        Ok(ERRNO_SUCCESS)
    } else {
        Err(Trap::DirNameLength(len))
    }
}

/// `proc_exit`: the guest never gets control back; the call stops it with its
/// exit code.
pub fn proc_exit(exit_code: i32) -> (t: Trap)
    ensures
        t == Trap::ProcExit(exit_code),
{
    Trap::ProcExit(exit_code)
}

/// `fd_write`, up to the write itself: resolves `fd`, checks the guest memory
/// that the call names, and collects the bytes of the descriptor list of
/// `iovs_len` entries at `iovs`.
pub fn fd_write(
    table: &ResourceTable,
    mem: &GuestMemory,
    fd: Option<u32>,
    iovs: u32,
    iovs_len: u32,
    nwritten_ptr: u32,
) -> (r: FdWrite)
    ensures
        write_rejection(table@, fd) matches Some(e) ==> r == FdWrite::Status(e),
        write_rejection(table@, fd) is None ==> {
            if iovecs_readable(mem@, iovs as int, iovs_len as nat) && in_bounds(
                mem@,
                nwritten_ptr as int,
                4,
            ) {
                &&& r matches FdWrite::Perform(req)
                &&& req.target == write_target(table@[fd->0])->0
                &&& req.data@ == gather(mem@, iovec_ranges(mem@, iovs as int, iovs_len as nat))
                &&& req.nwritten_ptr == nwritten_ptr
            } else {
                r == FdWrite::Trap(Trap::OutOfBounds)
            }
        },
{
    let f = match fd {
        Some(f) => f,
        None => return FdWrite::Status(ERRNO_BADF),
    };
    let target = match table.get(f) {
        None => return FdWrite::Status(ERRNO_BADF),
        Some(Resource::StandardOutput) => Stream::StandardOutput,
        Some(Resource::StandardError) => Stream::StandardError,
        Some(Resource::NetworkStream(i)) => Stream::Network(i),
        Some(Resource::StandardInput) | Some(Resource::PreopenedRoot) => {
            return FdWrite::Status(ERRNO_INVAL);
        },
    };
    if !mem.has_range(nwritten_ptr as u64, 4) {
        return FdWrite::Trap(Trap::OutOfBounds);
    }
    match gather_iovecs(mem, iovs, iovs_len) {
        None => FdWrite::Trap(Trap::OutOfBounds),
        Some(data) => FdWrite::Perform(WriteRequest { target, data, nwritten_ptr }),
    }
}

/// The end of `fd_write`: records that the host stream took `written` bytes
/// of the request, as a `u32` modulo 2^32.
pub fn fd_write_complete(mem: &mut GuestMemory, req: &WriteRequest, written: usize) -> (r: Result<
    u32,
    Trap,
>)
    ensures
        in_bounds(old(mem)@, req.nwritten_ptr as int, 4) ==> {
            &&& r == Ok::<u32, Trap>(ERRNO_SUCCESS)
            &&& final(mem)@ == put_bytes(
                old(mem)@,
                req.nwritten_ptr as int,
                u32_le_bytes((written as int % 0x1_0000_0000) as u32),
            )
            &&& le_u32(final(mem)@, req.nwritten_ptr as int) == written as int % 0x1_0000_0000
        },
        !in_bounds(old(mem)@, req.nwritten_ptr as int, 4) ==> {
            &&& r == Err::<u32, Trap>(Trap::OutOfBounds)
            &&& final(mem)@ == old(mem)@
        },
{
    let count = (written as u64 % 0x1_0000_0000) as u32;
    if mem.write_u32(req.nwritten_ptr as u64, count) {
        Ok(ERRNO_SUCCESS)
    } else {
        Err(Trap::OutOfBounds)
    }
}

/// `path_open`: opening paths is not offered, whatever the arguments.
pub fn path_open(
    dirfd: Option<u32>,
    dirflags: u32,
    path_ptr: u32,
    path_len: u32,
    oflags: u32,
    fs_rights_base: u64,
    fs_rights_inheriting: u64,
    fdflags: u32,
) -> (r: u32)
    ensures
        r == ERRNO_NOTSUP,
{
    ERRNO_NOTSUP
}

/// `fd_close`: closes `fd`, so that no later call can use it.
pub fn fd_close(table: &mut ResourceTable, fd: u32) -> (r: u32)
    requires
        old(table).wf(),
    ensures
        final(table).wf(),
        r == close_status(old(table)@, fd),
        r == ERRNO_SUCCESS ==> (fd as nat) < old(table).minted(),
        final(table)@ == old(table)@.remove(fd),
        final(table).minted() == old(table).minted(),
{
    match table.remove(fd) {
        Some(_) => ERRNO_SUCCESS,
        None => ERRNO_BADF,
    }
}

/// `fd_prestat_get`: describes the preopened root as a directory whose name
/// is empty; every other capability is refused.
pub fn fd_prestat_get(table: &ResourceTable, mem: &mut GuestMemory, fd: u32, prestat_ptr: u32) -> (r:
    Result<u32, Trap>)
    ensures
        !is_open_root(table@, fd) ==> r == Ok::<u32, Trap>(prestat_status(table@, fd))
            && final(mem)@ == old(mem)@,
        is_open_root(table@, fd) && in_bounds(old(mem)@, prestat_ptr as int, PRESTAT_SIZE as int)
            ==> r == Ok::<u32, Trap>(prestat_status(table@, fd)) && final(mem)@ == put_bytes(
            old(mem)@,
            prestat_ptr as int,
            prestat_dir_bytes(0),
        ),
        is_open_root(table@, fd) && !in_bounds(
            old(mem)@,
            prestat_ptr as int,
            PRESTAT_SIZE as int,
        ) ==> r == Err::<u32, Trap>(Trap::OutOfBounds) && final(mem)@ == old(mem)@,
        r == Ok::<u32, Trap>(ERRNO_SUCCESS) ==> final(mem)@[prestat_ptr as int] == 0 && le_u32(
            final(mem)@,
            prestat_ptr + 4,
        ) == 0,
{
    if fd != ROOT_FD {
        return Ok(ERRNO_BADF);
    }
    match table.get(fd) {
        Some(Resource::PreopenedRoot) => {},
        _ => return Ok(ERRNO_BADF),
    }
    let record: Vec<u8> = vec![0u8, 0u8, 0u8, 0u8, 0u8, 0u8, 0u8, 0u8];
    assert(record@ =~= prestat_dir_bytes(0));
    if mem.write_bytes(prestat_ptr as u64, &record) {
        assert(mem@[prestat_ptr + 4] == 0 && mem@[prestat_ptr + 5] == 0 && mem@[prestat_ptr + 6]
            == 0 && mem@[prestat_ptr + 7] == 0);
        Ok(ERRNO_SUCCESS)
    } else {
        Err(Trap::OutOfBounds)
    }
}

/// `fd_prestat_dir_name`: the root's name is empty, so the only valid request
/// is for zero bytes, and nothing is written.
pub fn fd_prestat_dir_name(table: &ResourceTable, fd: u32, path_ptr: u32, path_len: u32) -> (r:
    Result<u32, Trap>)
    ensures
        r == prestat_dir_name_result(table@, fd, path_len),
{
    if fd != ROOT_FD {
        return Ok(ERRNO_INVAL);
    }
    match table.get(fd) {
        Some(Resource::PreopenedRoot) => {},
        _ => return Ok(ERRNO_INVAL),
    }
    if path_len == 0 {
        Ok(ERRNO_SUCCESS)
    } else {
        Err(Trap::DirNameLength(path_len))
    }
}

/// `environ_sizes_get`: the guest sees no environment, so both the count of
/// variables and the size of their text are zero.
pub fn environ_sizes_get(mem: &mut GuestMemory, count_ptr: u32, size_ptr: u32) -> (r: Result<
    u32,
    Trap,
>)
    ensures
        in_bounds(old(mem)@, count_ptr as int, 4) && in_bounds(old(mem)@, size_ptr as int, 4)
            ==> r == Ok::<u32, Trap>(ERRNO_SUCCESS) && final(mem)@ == put_bytes(
            put_bytes(old(mem)@, count_ptr as int, u32_le_bytes(0)),
            size_ptr as int,
            u32_le_bytes(0),
        ),
        !(in_bounds(old(mem)@, count_ptr as int, 4) && in_bounds(old(mem)@, size_ptr as int, 4))
            ==> r == Err::<u32, Trap>(Trap::OutOfBounds) && final(mem)@ == old(mem)@,
        r is Ok ==> le_u32(final(mem)@, count_ptr as int) == 0 && le_u32(
            final(mem)@,
            size_ptr as int,
        ) == 0,
{
    if !mem.has_range(count_ptr as u64, 4) || !mem.has_range(size_ptr as u64, 4) {
        return Err(Trap::OutOfBounds);
    }
    mem.write_u32(count_ptr as u64, 0);
    let ghost between = mem@;
    mem.write_u32(size_ptr as u64, 0);
    proof {
        let c = count_ptr as int;
        assert(between[c] == 0 && between[c + 1] == 0 && between[c + 2] == 0 && between[c + 3]
            == 0);
        assert(mem@[c] == 0 && mem@[c + 1] == 0 && mem@[c + 2] == 0 && mem@[c + 3] == 0);
    }
    Ok(ERRNO_SUCCESS)
}

/// `environ_get`: there is no environment to hand out.
pub fn environ_get(environ_ptr: u32, environ_buf_ptr: u32) -> (r: u32)
    ensures
        r == ERRNO_NOTSUP,
{
    ERRNO_NOTSUP
}

} // verus!
