use std::sync::Arc;
use vstd::prelude::*;
use vstd::string::*;
use vstd::utf8::*;

verus! {

/// A leaf value of the document.
///
/// A number is held as its canonical decimal text.
pub enum Scalar {
    Null,
    Bool(bool),
    Number(String),
    Str(String),
}

/// A node of the document tree.
///
/// A `Map` holds its entries in an unspecified order; its keys are meant to be
/// unique (see `keys_unique`).
pub enum ConfuseData {
    List(Vec<Arc<ConfuseData>>),
    Mapping(Vec<(String, Arc<ConfuseData>)>),
    Value(Scalar),
    Marker,
}

/// What kind of filesystem object a node appears as.
#[derive(PartialEq, Eq, Structural, Clone, Copy, Debug)]
pub enum FileType {
    RegularFile,
    Directory,
}

/// The keys of a mapping's entries are pairwise distinct.
pub open spec fn keys_unique(m: Seq<(String, Arc<ConfuseData>)>) -> bool {
    forall|i: int, j: int|
        0 <= i < m.len() && 0 <= j < m.len() && i != j ==> #[trigger] m[i].0@ != #[trigger] m[j].0@
}

/// Sequences and mappings are directories, leaves are regular files.
pub open spec fn kind_of(d: ConfuseData) -> FileType {
    match d {
        ConfuseData::List(_) | ConfuseData::Mapping(_) => FileType::Directory,
        _ => FileType::RegularFile,
    }
}

/// The name given to the result of quoting a string with std's `Debug` format.
pub uninterp spec fn debug_quoted(s: Seq<char>) -> Seq<char>;

/// Relies on the `Debug` impl of `str` (through `format!("{:?}")`): the string
/// wrapped in double quotes with its quotes and control characters escaped; the
/// result depends on the characters alone.
#[verifier::external_body]
fn quote(s: &str) -> (r: String)
    ensures
        r@ == debug_quoted(s@),
{
    format!("{:?}", s)
}

/// The text of a scalar leaf, as a reader of its file sees it.
pub open spec fn rendered(s: Scalar) -> Seq<char> {
    match s {
        Scalar::Null => seq!['~'],
        Scalar::Bool(true) => seq!['t', 'r', 'u', 'e'],
        Scalar::Bool(false) => seq!['f', 'a', 'l', 's', 'e'],
        Scalar::Number(t) => t@,
        Scalar::Str(t) => debug_quoted(t@),
    }
}

/// The bytes of a leaf's file: the UTF-8 encoding of its text, nothing for a
/// list marker.
pub open spec fn content_of(d: ConfuseData) -> Seq<u8> {
    match d {
        ConfuseData::Value(s) => encode_utf8(rendered(s)),
        _ => Seq::empty(),
    }
}

/// The size reported for a node: a sequence counts its `.list` entry besides
/// its children, a mapping its children, a leaf the bytes of its content
/// (held to the largest `u64`).
pub open spec fn size_of(d: ConfuseData) -> int {
    match d {
        ConfuseData::List(l) => if l.len() < u64::MAX { l.len() + 1 } else { u64::MAX as int },
        ConfuseData::Mapping(m) => m.len() as int,
        ConfuseData::Value(s) => encode_utf8(rendered(s)).len() as int,
        ConfuseData::Marker => 0,
    }
}

impl ConfuseData {
    /// A mapping node from its entries, or `None` where two keys are equal.
    pub fn mapping(entries: Vec<(String, Arc<ConfuseData>)>) -> (r: Option<ConfuseData>)
        ensures
            keys_unique(entries@) ==> r == Some(ConfuseData::Mapping(entries)),
            !keys_unique(entries@) ==> r is None,
    {
        let n = entries.len();
        let mut i: usize = 0;
        while i < n
            invariant
                n == entries@.len(),
                0 <= i <= n,
                forall|a: int, b: int|
                    0 <= a < i && 0 <= b < n && a != b ==> #[trigger] entries@[a].0@
                        != #[trigger] entries@[b].0@,
            decreases n - i,
        {
            let mut j: usize = 0;
            while j < n
                invariant
                    n == entries@.len(),
                    0 <= i < n,
                    0 <= j <= n,
                    forall|a: int, b: int|
                        0 <= a < i && 0 <= b < n && a != b ==> #[trigger] entries@[a].0@
                            != #[trigger] entries@[b].0@,
                    forall|b: int| 0 <= b < j && b != i ==> entries@[i as int].0@ != #[trigger] entries@[b].0@,
                decreases n - j,
            {
                if j != i && entries[i].0 == entries[j].0 {
                    return None;
                }
                j = j + 1;
            }
            i = i + 1;
        }
        Some(ConfuseData::Mapping(entries))
    }

    /// The text of a scalar leaf.
    pub fn to_string(&self) -> (r: String)
        requires
            self is Value,
        ensures
            r@ == rendered(self->Value_0),
    {
        match self {
            ConfuseData::Value(Scalar::Null) => {
                let r = "~".to_owned();
                proof {
                    reveal_strlit("~");
                }
                assert(r@ =~= seq!['~']);
                r
            },
            ConfuseData::Value(Scalar::Bool(b)) => {
                if *b {
                    let r = "true".to_owned();
                    proof {
                        reveal_strlit("true");
                    }
                    assert(r@ =~= seq!['t', 'r', 'u', 'e']);
                    r
                } else {
                    let r = "false".to_owned();
                    proof {
                        reveal_strlit("false");
                    }
                    assert(r@ =~= seq!['f', 'a', 'l', 's', 'e']);
                    r
                }
            },
            ConfuseData::Value(Scalar::Number(t)) => t.clone(),
            ConfuseData::Value(Scalar::Str(t)) => quote(t.as_str()),
            _ => String::new(),
        }
    }

    /// The bytes of a leaf's file.
    pub fn content(&self) -> (r: Vec<u8>)
        requires
            !(self is List || self is Mapping),
        ensures
            r@ == content_of(*self),
    {
        match self {
            ConfuseData::Value(_) => {
                let text = self.to_string();
                text.as_str().as_bytes_vec()
            },
            _ => Vec::new(),
        }
    }

    /// Whether the node is a directory or a regular file.
    pub fn file_type(&self) -> (r: FileType)
        ensures
            r == kind_of(*self),
    {
        match self {
            ConfuseData::List(_) | ConfuseData::Mapping(_) => FileType::Directory,
            _ => FileType::RegularFile,
        }
    }

    /// The size that the node's attributes report.
    pub fn size(&self) -> (r: u64)
        ensures
            r == size_of(*self),
    {
        match self {
            ConfuseData::List(l) => (l.len() as u64).saturating_add(1),
            ConfuseData::Mapping(m) => m.len() as u64,
            ConfuseData::Value(_) => self.content().len() as u64,
            ConfuseData::Marker => 0,
        }
    }
}

} // verus!
