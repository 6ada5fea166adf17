use vstd::prelude::*;
use crate::errno::{ERRNO_BADF, ERRNO_INVAL, ERRNO_SUCCESS};
use crate::iovec::{gather, ranges_in_bounds, total_len};
use crate::memory::{in_bounds, le_u32};
use crate::resources::{lookup, Resource, ROOT_FD};
use crate::syscalls::{
    close_status, is_open_root, prestat_dir_bytes, prestat_dir_name_result, prestat_status,
    write_rejection, Trap,
};

verus! {

/// A write takes exactly as many bytes as the descriptor list's lengths add
/// up to.
pub proof fn lemma_gather_len(s: Seq<u8>, rs: Seq<(int, int)>)
    requires
        ranges_in_bounds(s, rs),
    ensures
        gather(s, rs).len() == total_len(rs),
    decreases rs.len(),
{
    if rs.len() > 0 {
        let head = rs.drop_last();
        assert(ranges_in_bounds(s, head)) by {
            assert forall|i: int| 0 <= i < head.len() implies in_bounds(
                s,
                #[trigger] head[i].0,
                head[i].1,
            ) by {
                assert(head[i] == rs[i]);
            }
        }
        assert(in_bounds(s, rs[rs.len() - 1].0, rs[rs.len() - 1].1));
        lemma_gather_len(s, head);
    }
}

/// The bytes of two descriptor lists written one after the other are the
/// bytes of the first followed by those of the second.
pub proof fn lemma_gather_append(s: Seq<u8>, a: Seq<(int, int)>, b: Seq<(int, int)>)
    ensures
        gather(s, a + b) == gather(s, a) + gather(s, b),
    decreases b.len(),
{
    if b.len() == 0 {
        assert(a + b =~= a);
        assert(gather(s, a) + gather(s, b) =~= gather(s, a));
    } else {
        let ab = a + b;
        assert(ab.drop_last() =~= a + b.drop_last());
        assert(ab.last() == b.last());
        lemma_gather_append(s, a, b.drop_last());
        let piece = s.subrange(b.last().0, b.last().0 + b.last().1);
        assert(gather(s, a) + gather(s, b.drop_last()) + piece =~= gather(s, a) + (gather(
            s,
            b.drop_last(),
        ) + piece));
    }
}

/// Splitting one range of a descriptor list into two adjacent entries, at any
/// place in the list, leaves the written bytes as they were.
pub proof fn lemma_gather_split(
    s: Seq<u8>,
    before: Seq<(int, int)>,
    ptr: int,
    m: int,
    n: int,
    after: Seq<(int, int)>,
)
    requires
        0 <= m,
        0 <= n,
        in_bounds(s, ptr, m + n),
    ensures
        gather(s, before + seq![(ptr, m + n)] + after) == gather(
            s,
            before + seq![(ptr, m), (ptr + m, n)] + after,
        ),
{
    let one = seq![(ptr, m + n)];
    let two = seq![(ptr, m), (ptr + m, n)];
    lemma_gather_append(s, before + one, after);
    lemma_gather_append(s, before, one);
    lemma_gather_append(s, before + two, after);
    lemma_gather_append(s, before, two);
    assert(one.drop_last() =~= Seq::<(int, int)>::empty());
    assert(two.drop_last() =~= seq![(ptr, m)]);
    assert(two.drop_last().drop_last() =~= Seq::<(int, int)>::empty());
    let none = Seq::<(int, int)>::empty();
    assert(gather(s, none) == Seq::<u8>::empty());
    assert(gather(s, one) == gather(s, none) + s.subrange(ptr, ptr + m + n));
    assert(gather(s, two.drop_last()) == gather(s, none) + s.subrange(ptr, ptr + m));
    assert(gather(s, two) == gather(s, two.drop_last()) + s.subrange(ptr + m, ptr + m + n));
    assert(gather(s, one) =~= gather(s, two));
}

/// Standard input accepts no writes: `fd_write` on it returns `EINVAL`
/// before it reads any guest memory.
pub proof fn lemma_standard_input_refuses_writes(t: Map<u32, Resource>, fd: u32)
    requires
        lookup(t, fd) == Some(Resource::StandardInput),
    ensures
        write_rejection(t, Some(fd)) == Some(ERRNO_INVAL),
{
}

/// Once `fd_close` has closed a capability, every later call on it is
/// refused: writes and a second close with `EBADF`, `fd_prestat_get` with
/// `EBADF`, `fd_prestat_dir_name` with `EINVAL`.
pub proof fn lemma_closed_capability_refused(t: Map<u32, Resource>, fd: u32, len: u32)
    requires
        t.contains_key(fd),
    ensures
        close_status(t, fd) == ERRNO_SUCCESS,
        write_rejection(t.remove(fd), Some(fd)) == Some(ERRNO_BADF),
        close_status(t.remove(fd), fd) == ERRNO_BADF,
        prestat_status(t.remove(fd), fd) == ERRNO_BADF,
        prestat_dir_name_result(t.remove(fd), fd, len) == Ok::<u32, Trap>(ERRNO_INVAL),
{
}

/// `fd_prestat_get` succeeds on the preopened root alone, and the record it
/// writes gives a name length of zero.
pub proof fn lemma_prestat_only_root(t: Map<u32, Resource>, fd: u32)
    ensures
        prestat_status(t, fd) == ERRNO_SUCCESS ==> fd == ROOT_FD,
        fd != ROOT_FD ==> prestat_status(t, fd) == ERRNO_BADF,
        le_u32(prestat_dir_bytes(0), 4) == 0,
{
    let b = prestat_dir_bytes(0);
    assert(b[4] == 0 && b[5] == 0 && b[6] == 0 && b[7] == 0);
}

/// `fd_prestat_dir_name` succeeds only on the preopened root with length zero;
/// a non-zero length on the root stops the guest.
pub proof fn lemma_dir_name_only_empty(t: Map<u32, Resource>, fd: u32, len: u32)
    ensures
        prestat_dir_name_result(t, fd, len) == Ok::<u32, Trap>(ERRNO_SUCCESS) <==> (
        is_open_root(t, fd) && len == 0),
        is_open_root(t, fd) && len != 0 ==> prestat_dir_name_result(t, fd, len) == Err::<
            u32,
            Trap,
        >(Trap::DirNameLength(len)),
        !is_open_root(t, fd) ==> prestat_dir_name_result(t, fd, len) == Ok::<u32, Trap>(
            ERRNO_INVAL,
        ),
{
}

} // verus!
