use vstd::prelude::*;

verus! {

/// The little-endian value of the four bytes of `s` starting at `at`.
pub open spec fn le_u32(s: Seq<u8>, at: int) -> int {
    s[at] as int + 0x100 * (s[at + 1] as int) + 0x1_0000 * (s[at + 2] as int) + 0x100_0000 * (
    s[at + 3] as int)
}

/// The four little-endian bytes of `v`.
pub open spec fn u32_le_bytes(v: u32) -> Seq<u8> {
    seq![
        (v % 0x100) as u8,
        ((v / 0x100) % 0x100) as u8,
        ((v / 0x1_0000) % 0x100) as u8,
        (v / 0x100_0000) as u8,
    ]
}

/// The region `[at, at + n)` lies inside `s`.
pub open spec fn in_bounds(s: Seq<u8>, at: int, n: int) -> bool {
    0 <= at && 0 <= n && at + n <= s.len()
}

/// `s` with the bytes `b` laid over it from `at` on.
pub open spec fn put_bytes(s: Seq<u8>, at: int, b: Seq<u8>) -> Seq<u8> {
    Seq::new(s.len(), |i: int| if at <= i < at + b.len() { b[i - at] } else { s[i] })
}

/// Decoding the encoding of a `u32` gives it back.
pub proof fn lemma_le_u32_round_trip(v: u32)
    ensures
        le_u32(u32_le_bytes(v), 0) == v as int,
{
    let b = u32_le_bytes(v);
    assert(b[0] as int == v % 0x100);
    assert(b[1] as int == (v / 0x100) % 0x100);
    assert(b[2] as int == (v / 0x1_0000) % 0x100);
    assert(b[3] as int == v / 0x100_0000);
    assert(v as int == v % 0x100 + 0x100 * ((v / 0x100) % 0x100) + 0x1_0000 * ((v / 0x1_0000)
        % 0x100) + 0x100_0000 * (v / 0x100_0000)) by (nonlinear_arith);
}

/// A written `u32` reads back from the place it was written to.
pub proof fn lemma_put_u32_reads_back(s: Seq<u8>, at: int, v: u32)
    requires
        in_bounds(s, at, 4),
    ensures
        le_u32(put_bytes(s, at, u32_le_bytes(v)), at) == v as int,
{
    let t = put_bytes(s, at, u32_le_bytes(v));
    let b = u32_le_bytes(v);
    assert(t[at] == b[0]);
    assert(t[at + 1] == b[1]);
    assert(t[at + 2] == b[2]);
    assert(t[at + 3] == b[3]);
    lemma_le_u32_round_trip(v);
}

/// The linear memory of one guest instance, borrowed for the length of a call.
pub struct GuestMemory {
    bytes: Vec<u8>,
}

impl View for GuestMemory {
    type V = Seq<u8>;

    closed spec fn view(&self) -> Seq<u8> {
        self.bytes@
    }
}

impl GuestMemory {
    /// Takes over the bytes of a guest's memory.
    pub fn from_bytes(bytes: Vec<u8>) -> (m: GuestMemory)
        ensures
            m@ == bytes@,
    {
        GuestMemory { bytes }
    }

    /// Hands the bytes back, as changed by the calls made on them.
    pub fn into_bytes(self) -> (v: Vec<u8>)
        ensures
            v@ == self@,
    {
        self.bytes
    }

    pub fn len(&self) -> (n: usize)
        ensures
            n == self@.len(),
    {
        self.bytes.len()
    }

    /// Tells whether `[at, at + n)` lies inside the memory.
    pub fn has_range(&self, at: u64, n: u64) -> (r: bool)
        ensures
            r == in_bounds(self@, at as int, n as int),
    {
        let len = self.bytes.len() as u64;
        at <= len && n <= len - at
    }

    /// Reads the little-endian `u32` at `at`, or `None` where it does not fit.
    pub fn read_u32(&self, at: u64) -> (r: Option<u32>)
        ensures
            r is Some <==> in_bounds(self@, at as int, 4),
            r is Some ==> r->0 as int == le_u32(self@, at as int),
    {
        let len = self.bytes.len();
        if !self.has_range(at, 4) {
            return None;
        }
        assert(at + 4 <= len);
        let i = at as usize;
        let b0 = self.bytes[i] as u32;
        let b1 = self.bytes[i + 1] as u32;
        let b2 = self.bytes[i + 2] as u32;
        let b3 = self.bytes[i + 3] as u32;
        assert(b0 + 0x100 * b1 + 0x1_0000 * b2 + 0x100_0000 * b3 <= 0xffff_ffff) by (nonlinear_arith)
            requires
                b0 < 0x100,
                b1 < 0x100,
                b2 < 0x100,
                b3 < 0x100,
        ;
        Some(b0 + 0x100 * b1 + 0x1_0000 * b2 + 0x100_0000 * b3)
    }

    /// Copies out the `n` bytes at `at`, or `None` where they do not fit.
    pub fn read_bytes(&self, at: u64, n: u64) -> (r: Option<Vec<u8>>)
        ensures
            r is Some <==> in_bounds(self@, at as int, n as int),
            r is Some ==> r->0@ == self@.subrange(at as int, at + n),
    {
        let len = self.bytes.len();
        if !self.has_range(at, n) {
            return None;
        }
        assert(at + n <= len);
        let start = at as usize;
        let end = (at + n) as usize;
        let mut out: Vec<u8> = Vec::new();
        let mut i: usize = start;
        while i < end
            invariant
                start <= i <= end,
                end <= self@.len(),
                start == at,
                end == at + n,
                out@ == self@.subrange(start as int, i as int),
            decreases end - i,
        {
            out.push(self.bytes[i]);
            i = i + 1;
            assert(out@ =~= self@.subrange(start as int, i as int));
        }
        Some(out)
    }

    /// Lays `b` over the memory from `at` on, or changes nothing and returns
    /// `false` where it does not fit.
    pub fn write_bytes(&mut self, at: u64, b: &Vec<u8>) -> (ok: bool)
        ensures
            ok == in_bounds(old(self)@, at as int, b@.len() as int),
            ok ==> final(self)@ == put_bytes(old(self)@, at as int, b@),
            !ok ==> final(self)@ == old(self)@,
    {
        let len = self.bytes.len();
        if !self.has_range(at, b.len() as u64) {
            return false;
        }
        assert(at + b@.len() <= len);
        let start = at as usize;
        let mut j: usize = 0;
        while j < b.len()
            invariant
                start == at,
                start + b@.len() <= len,
                len == old(self)@.len(),
                self@.len() == old(self)@.len(),
                0 <= j <= b@.len(),
                forall|i: int|
                    0 <= i < self@.len() ==> #[trigger] self@[i] == (if start <= i < start + j {
                        b@[i - start]
                    } else {
                        old(self)@[i]
                    }),
            decreases b@.len() - j,
        {
            self.bytes.set(start + j, b[j]);
            j = j + 1;
        }
        assert(self@ =~= put_bytes(old(self)@, at as int, b@));
        true
    }

    /// Stores `v` as four little-endian bytes at `at`, or changes nothing and
    /// returns `false` where they do not fit.
    pub fn write_u32(&mut self, at: u64, v: u32) -> (ok: bool)
        ensures
            ok == in_bounds(old(self)@, at as int, 4),
            ok ==> final(self)@ == put_bytes(old(self)@, at as int, u32_le_bytes(v)),
            ok ==> le_u32(final(self)@, at as int) == v as int,
            !ok ==> final(self)@ == old(self)@,
    {
        let b: Vec<u8> = vec![
            (v % 0x100) as u8,
            ((v / 0x100) % 0x100) as u8,
            ((v / 0x1_0000) % 0x100) as u8,
            (v / 0x100_0000) as u8,
        ];
        assert(b@ =~= u32_le_bytes(v));
        let ok = self.write_bytes(at, &b);
        proof {
            if ok {
                lemma_put_u32_reads_back(old(self)@, at as int, v);
            }
        }
        ok
    }
}

} // verus!
