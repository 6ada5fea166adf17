use vstd::prelude::*;

verus! {

/// The capability that stands for the single preopened root directory.
pub const ROOT_FD: u32 = 3;

/// What a capability can stand for.
#[derive(Clone, Copy, Debug, PartialEq, Eq, Structural)]
pub enum Resource {
    StandardInput,
    StandardOutput,
    StandardError,
    /// The preopened root directory, which exposes no name.
    PreopenedRoot,
    /// A network stream, by its index among the host's open streams.
    NetworkStream(u32),
}

/// What `fd` stands for in `t`, if it is open.
pub open spec fn lookup(t: Map<u32, Resource>, fd: u32) -> Option<Resource> {
    if t.contains_key(fd) {
        Some(t[fd])
    } else {
        None
    }
}

/// The capabilities that a guest instance holds, each minted by the host.
/// A capability is the index of its slot; a slot once closed is never reused.
pub struct ResourceTable {
    slots: Vec<Option<Resource>>,
}

impl View for ResourceTable {
    type V = Map<u32, Resource>;

    closed spec fn view(&self) -> Map<u32, Resource> {
        Map::new(
            |k: u32| (k as int) < self.slots@.len() && self.slots@[k as int] is Some,
            |k: u32| self.slots@[k as int]->Some_0,
        )
    }
}

impl ResourceTable {
    /// How many capabilities have been minted so far: every open one lies
    /// below this bound, and the next one minted is this value.
    pub closed spec fn minted(&self) -> nat {
        self.slots@.len()
    }

    pub closed spec fn wf(&self) -> bool {
        self.slots@.len() <= u32::MAX as nat + 1
    }

    /// A table with no capability in it.
    pub fn empty() -> (t: ResourceTable)
        ensures
            t.wf(),
            t@ == Map::<u32, Resource>::empty(),
            t.minted() == 0,
    {
        let t = ResourceTable { slots: Vec::new() };
        assert(t@ =~= Map::<u32, Resource>::empty());
        t
    }

    /// The table a guest instance starts with: standard input, output and
    /// error as 0, 1 and 2, and the preopened root as `ROOT_FD`.
    pub fn with_standard_streams() -> (t: ResourceTable)
        ensures
            t.wf(),
            t@ == map![
                0u32 => Resource::StandardInput,
                1u32 => Resource::StandardOutput,
                2u32 => Resource::StandardError,
                ROOT_FD => Resource::PreopenedRoot,
            ],
            t.minted() == 4,
    {
        let t = ResourceTable {
            slots: vec![
                Some(Resource::StandardInput),
                Some(Resource::StandardOutput),
                Some(Resource::StandardError),
                Some(Resource::PreopenedRoot),
            ],
        };
        assert(t@ =~= map![
            0u32 => Resource::StandardInput,
            1u32 => Resource::StandardOutput,
            2u32 => Resource::StandardError,
            ROOT_FD => Resource::PreopenedRoot,
        ]);
        t
    }

    /// Mints a fresh capability for `r`; `None` once every capability value
    /// has been handed out.
    pub fn insert(&mut self, r: Resource) -> (fd: Option<u32>)
        requires
            old(self).wf(),
        ensures
            final(self).wf(),
            fd is Some <==> old(self).minted() <= u32::MAX,
            fd is Some ==> {
                &&& fd->0 as nat == old(self).minted()
                &&& !old(self)@.contains_key(fd->0)
                &&& final(self)@ == old(self)@.insert(fd->0, r)
                &&& final(self).minted() == old(self).minted() + 1
            },
            fd is None ==> final(self)@ == old(self)@ && final(self).minted() == old(self).minted(),
    {
        if self.slots.len() > u32::MAX as usize {
            return None;
        }
        let fd = self.slots.len() as u32;
        self.slots.push(Some(r));
        assert(self@ =~= old(self)@.insert(fd, r));
        Some(fd)
    }

    /// What `fd` stands for, if it is open.
    pub fn get(&self, fd: u32) -> (r: Option<Resource>)
        ensures
            r == lookup(self@, fd),
    {
        if (fd as usize) < self.slots.len() {
            self.slots[fd as usize]
        } else {
            None
        }
    }

    /// Closes `fd`, returning what it stood for; the table is unchanged where
    /// it was not open.
    pub fn remove(&mut self, fd: u32) -> (r: Option<Resource>)
        requires
            old(self).wf(),
        ensures
            final(self).wf(),
            r == lookup(old(self)@, fd),
            r is Some ==> (fd as nat) < old(self).minted(),
            final(self)@ == old(self)@.remove(fd),
            final(self).minted() == old(self).minted(),
    {
        if (fd as usize) < self.slots.len() {
            let r = self.slots[fd as usize];
            self.slots.set(fd as usize, None);
            assert(self@ =~= old(self)@.remove(fd));
            r
        } else {
            assert(self@ =~= old(self)@.remove(fd));
            None
        }
    }
}

} // verus!
