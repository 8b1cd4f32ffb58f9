use std::collections::HashMap;
use vstd::prelude::*;
use vstd::std_specs::hash::group_hash_axioms;

verus! {

broadcast use group_hash_axioms;

/// The table of live source maps, keyed by the handles it issued, and the
/// last handle it issued.
pub struct Registry {
    issued: u32,
    maps: HashMap<u32, sourcemap::SourceMap>,
}

impl Registry {
    /// The last handle issued; 0 before the first.
    pub closed spec fn issued(&self) -> u32 {
        self.issued
    }

    /// The live source maps, by handle.
    pub closed spec fn entries(&self) -> Map<u32, sourcemap::SourceMap> {
        self.maps@
    }

    /// Every live handle is one that was issued.
    pub open spec fn wf(&self) -> bool {
        &&& self.entries().dom().finite()
        &&& forall|h: u32| #[trigger] self.entries().contains_key(h) ==> 1 <= h <= self.issued()
    }

    /// An empty registry that has issued no handle.
    pub fn new() -> (r: Registry)
        ensures
            r.wf(),
            r.issued() == 0,
            r.entries() == Map::<u32, sourcemap::SourceMap>::empty(),
    {
        Registry { issued: 0, maps: HashMap::new() }
    }

    /// Whether a further handle can still be issued.
    pub fn can_issue(&self) -> (r: bool)
        ensures
            r == (self.issued() < u32::MAX),
    {
        self.issued < u32::MAX
    }

    /// Issues the next handle, one above the last.
    pub fn allocate(&mut self) -> (h: u32)
        requires
            old(self).wf(),
            old(self).issued() < u32::MAX,
        ensures
            final(self).wf(),
            h == old(self).issued() + 1,
            final(self).issued() == h,
            final(self).entries() == old(self).entries(),
    {
        self.issued = self.issued + 1;
        self.issued
    }

    /// Stores a map under an issued handle that holds none.
    pub fn insert(&mut self, handle: u32, map: sourcemap::SourceMap)
        requires
            old(self).wf(),
            1 <= handle <= old(self).issued(),
            !old(self).entries().contains_key(handle),
        ensures
            final(self).wf(),
            final(self).issued() == old(self).issued(),
            final(self).entries() == old(self).entries().insert(handle, map),
    {
        self.maps.insert(handle, map);
    }

    /// The map stored under a handle, if it is live.
    pub fn get(&self, handle: u32) -> (r: Option<&sourcemap::SourceMap>)
        ensures
            match r {
                Some(m) => self.entries().contains_key(handle) && *m == self.entries()[handle],
                None => !self.entries().contains_key(handle),
            },
    {
        self.maps.get(&handle)
    }

    /// Removes the map under a handle, if any, and returns how many remain.
    pub fn remove(&mut self, handle: u32) -> (remaining: usize)
        requires
            old(self).wf(),
        ensures
            final(self).wf(),
            final(self).issued() == old(self).issued(),
            final(self).entries() == old(self).entries().remove(handle),
            remaining == final(self).entries().len(),
    {
        self.maps.remove(&handle);
        self.maps.len()
    }

    /// How many maps are live.
    pub fn len(&self) -> (r: usize)
        ensures
            r == self.entries().len(),
    {
        self.maps.len()
    }
}

} // verus!
