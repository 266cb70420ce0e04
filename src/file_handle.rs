use crate::data::ConfuseData;
use std::collections::BTreeMap;
use std::sync::Arc;
use vstd::prelude::*;

verus! {

broadcast use {vstd::std_specs::btree::group_btree_axioms, vstd::laws_cmp::group_laws_cmp};

/// An open file or directory: the node it was opened on, and the open flags.
pub struct FileHandle {
    pub data: Arc<ConfuseData>,
    pub flags: u32,
}

/// The table of open handles. Ids come from a counter that only grows, so an
/// id is never handed out twice.
pub struct FileHandleMap {
    file_handles: BTreeMap<u64, FileHandle>,
    counter: u64,
}

impl View for FileHandleMap {
    type V = Map<u64, FileHandle>;

    closed spec fn view(&self) -> Map<u64, FileHandle> {
        self.file_handles@
    }
}

impl FileHandleMap {
    /// The id that the next allocation hands out.
    pub closed spec fn next_id(&self) -> u64 {
        self.counter
    }

    /// Every id in the table was handed out before.
    pub open spec fn wf(&self) -> bool {
        forall|id: u64| #[trigger] self@.contains_key(id) ==> id < self.next_id()
    }

    pub fn new() -> (r: Self)
        ensures
            r@ == Map::<u64, FileHandle>::empty(),
            r.next_id() == 0,
            r.wf(),
    {
        Self { file_handles: BTreeMap::new(), counter: 0 }
    }

    /// Stores `data` under a fresh id and returns the id.
    pub fn new_handle(&mut self, data: Arc<ConfuseData>, flags: u32) -> (r: u64)
        requires
            old(self).next_id() < u64::MAX,
        ensures
            r == old(self).next_id(),
            final(self).next_id() == old(self).next_id() + 1,
            final(self)@ == old(self)@.insert(r, FileHandle { data, flags }),
            old(self).wf() ==> final(self).wf(),
    {
        let id = self.counter;
        self.counter = self.counter + 1;
        self.file_handles.insert(id, FileHandle { data, flags });
        id
    }

    /// Whether another id can still be handed out.
    pub fn can_allocate(&self) -> (r: bool)
        ensures
            r == (self.next_id() < u64::MAX),
    {
        self.counter < u64::MAX
    }

    /// Forgets the handle `id`; an unknown id is left alone.
    pub fn remove_handle(&mut self, id: u64)
        ensures
            final(self)@ == old(self)@.remove(id),
            final(self).next_id() == old(self).next_id(),
            old(self).wf() ==> final(self).wf(),
    {
        self.file_handles.remove(&id);
        assert forall|k: u64| #[trigger] self@.contains_key(k) implies old(self)@.contains_key(k) by {}
    }

    /// The handle stored under `id`, if any.
    pub fn get_handle(&self, id: u64) -> (r: Option<&FileHandle>)
        ensures
            match r {
                Some(h) => self@.contains_key(id) && self@[id] == *h,
                None => !self@.contains_key(id),
            },
    {
        self.file_handles.get(&id)
    }

    /// Forgets every handle, keeping the counter where it is.
    pub fn drop_all(&mut self)
        ensures
            final(self)@ == Map::<u64, FileHandle>::empty(),
            final(self).next_id() == old(self).next_id(),
            final(self).wf(),
    {
        self.file_handles = BTreeMap::new();
    }
}

} // verus!
