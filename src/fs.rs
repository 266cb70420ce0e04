use crate::data::{content_of, kind_of, size_of, ConfuseData, FileType};
use crate::error::FsError;
use crate::file_handle::{FileHandle, FileHandleMap};
use crate::path::{
    decimal, decimal_name, list_name, list_name_string, resolve, resolve_spec, segments_view,
};
use crate::shared::share;
use std::sync::Arc;
use vstd::prelude::*;

verus! {

/// One entry of a directory listing.
pub struct DirectoryEntry {
    pub name: String,
    pub kind: FileType,
}

/// The attributes of a node that the tree itself decides.
#[derive(PartialEq, Eq, Structural, Clone, Copy, Debug)]
pub struct NodeAttr {
    pub size: u64,
    pub kind: FileType,
}

/// The bytes `[offset, offset + size)` of `c`, cut at its end.
pub open spec fn window(c: Seq<u8>, offset: int, size: int) -> Seq<u8> {
    let s = if offset < c.len() { offset } else { c.len() as int };
    let e = if offset + size < c.len() { offset + size } else { c.len() as int };
    c.subrange(s, e)
}

/// The published tree and the table of handles opened on it.
pub struct Confuse {
    data: Arc<ConfuseData>,
    file_handles: FileHandleMap,
}

impl Confuse {
    /// The published root.
    pub closed spec fn root(&self) -> ConfuseData {
        *self.data
    }

    /// The handle table.
    pub closed spec fn handles(&self) -> FileHandleMap {
        self.file_handles
    }

    pub open spec fn wf(&self) -> bool {
        self.handles().wf()
    }

    /// The node that an operation addresses: the handle's node where a handle
    /// is given, else the node the path leads to from the root.
    pub open spec fn node_spec(&self, segs: Seq<Seq<char>>, fh: Option<u64>) -> Result<
        ConfuseData,
        FsError,
    > {
        match fh {
            Some(id) => if self.handles()@.contains_key(id) {
                Ok(*self.handles()@[id].data)
            } else {
                Err(FsError::BadDescriptor)
            },
            None => match resolve_spec(self.root(), segs) {
                Some(d) => Ok(d),
                None => Err(FsError::NotFound),
            },
        }
    }

    /// The attributes reported for what `segs` or `fh` addresses.
    pub open spec fn attr_spec(&self, segs: Seq<Seq<char>>, fh: Option<u64>) -> Result<
        NodeAttr,
        FsError,
    > {
        match self.node_spec(segs, fh) {
            Ok(d) => Ok(NodeAttr { size: size_of(d) as u64, kind: kind_of(d) }),
            Err(e) => Err(e),
        }
    }

    /// What a read of `size` bytes at `offset` through handle `fh` returns.
    pub open spec fn read_spec(&self, fh: u64, offset: u64, size: u32) -> Result<Seq<u8>, FsError> {
        match self.node_spec(Seq::empty(), Some(fh)) {
            Ok(d) => if kind_of(d) == FileType::Directory {
                Err(FsError::IsDirectory)
            } else {
                Ok(window(content_of(d), offset as int, size as int))
            },
            Err(e) => Err(e),
        }
    }

    /// An open of the path `segs` took `pre` to `post` and returned `r`: the
    /// node the path leads to is stored under the next id, which is returned;
    /// where the path leads nowhere, or no id is left, the table is unchanged.
    pub open spec fn opened(
        pre: Confuse,
        post: Confuse,
        segs: Seq<Seq<char>>,
        flags: u32,
        r: Result<u64, FsError>,
    ) -> bool {
        let id = pre.handles().next_id();
        &&& post.root() == pre.root()
        &&& pre.wf() ==> post.wf()
        &&& match resolve_spec(pre.root(), segs) {
            Some(d) => if id < u64::MAX {
                &&& r == Ok::<u64, FsError>(id)
                &&& post.handles().next_id() == id + 1
                &&& post.handles()@ == pre.handles()@.insert(id, post.handles()@[id])
                &&& *post.handles()@[id].data == d
                &&& post.handles()@[id].flags == flags
            } else {
                &&& r == Err::<u64, FsError>(FsError::Exhausted)
                &&& post.handles() == pre.handles()
            },
            None => {
                &&& r == Err::<u64, FsError>(FsError::NotFound)
                &&& post.handles() == pre.handles()
            },
        }
    }

    /// A release of `fh` took `pre` to `post`: the handle is forgotten, if it
    /// was there, and nothing else changes.
    pub open spec fn released(pre: Confuse, post: Confuse, fh: u64) -> bool {
        &&& post.root() == pre.root()
        &&& post.handles()@ == pre.handles()@.remove(fh)
        &&& post.handles().next_id() == pre.handles().next_id()
        &&& pre.wf() ==> post.wf()
    }

    /// Publishes `root` with an empty handle table.
    pub fn new(root: ConfuseData) -> (r: Self)
        ensures
            r.root() == root,
            r.handles()@ == Map::<u64, FileHandle>::empty(),
            r.handles().next_id() == 0,
            r.wf(),
    {
        Confuse { data: Arc::new(root), file_handles: FileHandleMap::new() }
    }

    /// The node addressed by the handle `fh` where one is given, else by the
    /// path `segs` (the root's segment excluded).
    pub fn get_data(&self, segs: &Vec<String>, fh: Option<u64>) -> (r: Result<
        Arc<ConfuseData>,
        FsError,
    >)
        ensures
            match self.node_spec(segments_view(segs@), fh) {
                Ok(d) => r is Ok && *r->Ok_0 == d,
                Err(e) => r == Err::<Arc<ConfuseData>, FsError>(e),
            },
    {
        match fh {
            Some(id) => match self.file_handles.get_handle(id) {
                Some(h) => Ok(share(&h.data)),
                None => Err(FsError::BadDescriptor),
            },
            None => resolve(&self.data, segs),
        }
    }

    /// The size and kind of the addressed node.
    pub fn getattr(&self, segs: &Vec<String>, fh: Option<u64>) -> (r: Result<NodeAttr, FsError>)
        ensures
            r == self.attr_spec(segments_view(segs@), fh),
    {
        let data = self.get_data(segs, fh)?;
        let size = data.size();
        let kind = data.file_type();
        Ok(NodeAttr { size, kind })
    }

    fn open_node(&mut self, segs: &Vec<String>, flags: u32) -> (r: Result<u64, FsError>)
        ensures
            Self::opened(*old(self), *final(self), segments_view(segs@), flags, r),
    {
        let data = resolve(&self.data, segs)?;
        if !self.file_handles.can_allocate() {
            return Err(FsError::Exhausted);
        }
        let id = self.file_handles.new_handle(data, flags);
        Ok(id)
    }

    /// Opens the file at `segs`; returns the new handle's id.
    pub fn open(&mut self, segs: &Vec<String>, flags: u32) -> (r: Result<u64, FsError>)
        ensures
            Self::opened(*old(self), *final(self), segments_view(segs@), flags, r),
    {
        self.open_node(segs, flags)
    }

    /// Opens the directory at `segs`; returns the new handle's id.
    pub fn opendir(&mut self, segs: &Vec<String>, flags: u32) -> (r: Result<u64, FsError>)
        ensures
            Self::opened(*old(self), *final(self), segments_view(segs@), flags, r),
    {
        self.open_node(segs, flags)
    }

    /// Forgets the file handle `fh`; never fails.
    pub fn release(&mut self, fh: u64)
        ensures
            Self::released(*old(self), *final(self), fh),
    {
        self.file_handles.remove_handle(fh);
    }

    /// Forgets the directory handle `fh`; never fails.
    pub fn releasedir(&mut self, fh: u64)
        ensures
            Self::released(*old(self), *final(self), fh),
    {
        self.file_handles.remove_handle(fh);
    }

    /// Reads up to `size` bytes at `offset` from the leaf that `fh` was
    /// opened on. Past the end the result is empty; a list marker reads as
    /// empty.
    pub fn read(&self, fh: u64, offset: u64, size: u32) -> (r: Result<Vec<u8>, FsError>)
        ensures
            match self.read_spec(fh, offset, size) {
                Ok(b) => r is Ok && r->Ok_0@ == b,
                Err(e) => r == Err::<Vec<u8>, FsError>(e),
            },
    {
        let h = match self.file_handles.get_handle(fh) {
            Some(h) => h,
            None => {
                return Err(FsError::BadDescriptor);
            },
        };
        let data: &ConfuseData = &h.data;
        match data {
            ConfuseData::List(_) | ConfuseData::Mapping(_) => {
                return Err(FsError::IsDirectory);
            },
            _ => {},
        }
        let content = data.content();
        let len = content.len();
        let ghost c = content@;
        let start: usize = if offset < len as u64 {
            offset as usize
        } else {
            len
        };
        let end: usize = if (size as u64) < (len - start) as u64 {
            start + size as usize
        } else {
            len
        };
        let mut out: Vec<u8> = Vec::new();
        let mut i: usize = start;
        while i < end
            invariant
                start <= i <= end <= len,
                len == c.len(),
                content@ == c,
                out@ == c.subrange(start as int, i as int),
            decreases end - i,
        {
            out.push(content[i]);
            assert(c.subrange(start as int, i + 1) =~= c.subrange(start as int, i as int).push(c[i as int]));
            i = i + 1;
        }
        assert(out@ =~= window(c, offset as int, size as int));
        Ok(out)
    }

    /// Lists the directory that `fh` was opened on: a sequence gives one entry
    /// per index, named by it, and a closing `.list` file; a mapping one entry
    /// per key.
    pub fn readdir(&self, fh: u64) -> (r: Result<Vec<DirectoryEntry>, FsError>)
        ensures
            match self.node_spec(Seq::empty(), Some(fh)) {
                Ok(d) => match d {
                    ConfuseData::List(l) => r is Ok && Self::list_entries(l@, r->Ok_0@),
                    ConfuseData::Mapping(m) => r is Ok && Self::map_entries(m@, r->Ok_0@),
                    _ => r == Err::<Vec<DirectoryEntry>, FsError>(FsError::NotSupported),
                },
                Err(e) => r == Err::<Vec<DirectoryEntry>, FsError>(e),
            },
    {
        let h = match self.file_handles.get_handle(fh) {
            Some(h) => h,
            None => {
                return Err(FsError::BadDescriptor);
            },
        };
        let data: &ConfuseData = &h.data;
        match data {
            ConfuseData::List(l) => {
                let mut out: Vec<DirectoryEntry> = Vec::new();
                let mut i: usize = 0;
                while i < l.len()
                    invariant
                        0 <= i <= l@.len(),
                        out@.len() == i,
                        forall|j: int|
                            0 <= j < i ==> (#[trigger] out@[j]).name@ == decimal(j as nat)
                                && out@[j].kind == kind_of(*l@[j]),
                    decreases l@.len() - i,
                {
                    let name = decimal_name(i);
                    let kind = l[i].file_type();
                    out.push(DirectoryEntry { name, kind });
                    i = i + 1;
                }
                out.push(DirectoryEntry { name: list_name_string(), kind: FileType::RegularFile });
                Ok(out)
            },
            ConfuseData::Mapping(m) => {
                let mut out: Vec<DirectoryEntry> = Vec::new();
                let mut i: usize = 0;
                while i < m.len()
                    invariant
                        0 <= i <= m@.len(),
                        out@.len() == i,
                        forall|j: int|
                            0 <= j < i ==> (#[trigger] out@[j]).name@ == m@[j].0@
                                && out@[j].kind == kind_of(*m@[j].1),
                    decreases m@.len() - i,
                {
                    let name = m[i].0.clone();
                    let kind = m[i].1.file_type();
                    out.push(DirectoryEntry { name, kind });
                    i = i + 1;
                }
                Ok(out)
            },
            _ => Err(FsError::NotSupported),
        }
    }

    /// The listing of a sequence: its indices in order, each with its child's
    /// kind, then `.list` as a file.
    pub open spec fn list_entries(l: Seq<Arc<ConfuseData>>, es: Seq<DirectoryEntry>) -> bool {
        &&& es.len() == l.len() + 1
        &&& forall|j: int|
            0 <= j < l.len() ==> (#[trigger] es[j]).name@ == decimal(j as nat) && es[j].kind
                == kind_of(*l[j])
        &&& es[l.len() as int].name@ == list_name()
        &&& es[l.len() as int].kind == FileType::RegularFile
    }

    /// The listing of a mapping: its keys in its own order, each with its
    /// child's kind.
    pub open spec fn map_entries(m: Seq<(String, Arc<ConfuseData>)>, es: Seq<DirectoryEntry>) -> bool {
        &&& es.len() == m.len()
        &&& forall|j: int|
            0 <= j < m.len() ==> (#[trigger] es[j]).name@ == m[j].0@ && es[j].kind == kind_of(
                *m[j].1,
            )
    }

    /// Invalidates every handle, then publishes `new_root` where the reparse
    /// gave one; where it failed the previous tree stays.
    pub fn reload(&mut self, new_root: Option<ConfuseData>)
        ensures
            final(self).handles()@ == Map::<u64, FileHandle>::empty(),
            final(self).handles().next_id() == old(self).handles().next_id(),
            final(self).wf(),
            match new_root {
                Some(d) => final(self).root() == d,
                None => final(self).root() == old(self).root(),
            },
    {
        self.file_handles.drop_all();
        match new_root {
            Some(d) => {
                self.data = Arc::new(d);
            },
            None => {},
        }
    }
}

} // verus!
