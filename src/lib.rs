//! Host side of a small WASI preview1 syscall surface: guest linear memory,
//! the capability table, and the decisions each registered call makes.
//! Running the guest and performing host I/O is left to the embedder, which
//! hands each call's arguments in and carries out what comes back.
pub mod errno;
pub mod iovec;
pub mod laws;
pub mod memory;
pub mod resources;
pub mod syscalls;

pub use errno::{ERRNO_BADF, ERRNO_INVAL, ERRNO_NOTSUP, ERRNO_SUCCESS};
pub use memory::GuestMemory;
pub use resources::{Resource, ResourceTable, ROOT_FD};
pub use syscalls::{
    environ_get, environ_sizes_get, fd_close, fd_prestat_dir_name, fd_prestat_get, fd_write,
    fd_write_complete, path_open, proc_exit, FdWrite, Stream, Trap, WriteRequest,
};
