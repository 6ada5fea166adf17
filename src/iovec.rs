use vstd::prelude::*;
use crate::memory::{GuestMemory, in_bounds, le_u32};

verus! {

/// Size in guest memory of one `(pointer, length)` entry of a descriptor list.
pub const IOVEC_SIZE: u64 = 8;

/// The `i`-th entry of the descriptor list at `base`, as `(pointer, length)`.
pub open spec fn iovec_at(s: Seq<u8>, base: int, i: int) -> (int, int) {
    (le_u32(s, base + 8 * i), le_u32(s, base + 8 * i + 4))
}

/// The `count` byte ranges that the descriptor list at `base` names, in order.
pub open spec fn iovec_ranges(s: Seq<u8>, base: int, count: nat) -> Seq<(int, int)> {
    Seq::new(count, |i: int| iovec_at(s, base, i))
}

/// Every range of `rs` lies inside `s`.
pub open spec fn ranges_in_bounds(s: Seq<u8>, rs: Seq<(int, int)>) -> bool {
    forall|i: int| 0 <= i < rs.len() ==> in_bounds(s, #[trigger] rs[i].0, rs[i].1)
}

/// The descriptor list at `base` and every range it names lie inside `s`.
pub open spec fn iovecs_readable(s: Seq<u8>, base: int, count: nat) -> bool {
    in_bounds(s, base, 8 * count as int) && ranges_in_bounds(s, iovec_ranges(s, base, count))
}

/// The bytes of the ranges `rs` of `s`, one after the other.
pub open spec fn gather(s: Seq<u8>, rs: Seq<(int, int)>) -> Seq<u8>
    decreases rs.len(),
{
    if rs.len() == 0 {
        Seq::empty()
    } else {
        gather(s, rs.drop_last()) + s.subrange(rs.last().0, rs.last().0 + rs.last().1)
    }
}

/// The sum of the lengths of the ranges `rs`.
pub open spec fn total_len(rs: Seq<(int, int)>) -> int
    decreases rs.len(),
{
    if rs.len() == 0 {
        0
    } else {
        total_len(rs.drop_last()) + rs.last().1
    }
}

/// Collects the bytes that the descriptor list of `count` entries at `base`
/// names, in order; `None` where the list or one of its ranges lies outside
/// the memory.
pub fn gather_iovecs(mem: &GuestMemory, base: u32, count: u32) -> (r: Option<Vec<u8>>)
    ensures
        r is Some <==> iovecs_readable(mem@, base as int, count as nat),
        r is Some ==> r->0@ == gather(mem@, iovec_ranges(mem@, base as int, count as nat)),
{
    let ghost s = mem@;
    let ghost rs = iovec_ranges(s, base as int, count as nat);
    if !mem.has_range(base as u64, IOVEC_SIZE * count as u64) {
        return None;
    }
    let mut data: Vec<u8> = Vec::new();
    let mut i: u32 = 0;
    while i < count
        invariant
            s == mem@,
            rs == iovec_ranges(s, base as int, count as nat),
            in_bounds(s, base as int, 8 * count as int),
            i <= count,
            forall|j: int| 0 <= j < i ==> in_bounds(s, #[trigger] rs[j].0, rs[j].1),
            data@ == gather(s, rs.take(i as int)),
        decreases count - i,
    {
        let at = base as u64 + IOVEC_SIZE * i as u64;
        let ptr = mem.read_u32(at);
        let len = mem.read_u32(at + 4);
        let (ptr, len) = match (ptr, len) {
            (Some(p), Some(l)) => (p, l),
            _ => {
                assert(false);
                return None;
            },
        };
        assert(rs[i as int] == (ptr as int, len as int));
        let mut piece = match mem.read_bytes(ptr as u64, len as u64) {
            Some(p) => p,
            None => {
                assert(!ranges_in_bounds(s, rs));
                return None;
            },
        };
        data.append(&mut piece);
        proof {
            assert(rs.take(i + 1).drop_last() =~= rs.take(i as int));
        }
        i = i + 1;
    }
    assert(rs.take(count as int) =~= rs);
    Some(data)
}

} // verus!
