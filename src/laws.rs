use crate::data::{content_of, keys_unique, kind_of, ConfuseData, FileType};
use crate::error::FsError;
use crate::file_handle::FileHandle;
use crate::fs::{window, Confuse};
use crate::path::{
    decimal, digit_char, digits_value, index_digits, index_of_segment, is_digit, key_position,
    lemma_key_position_valid, list_name, resolve_spec,
};
use std::sync::Arc;
use vstd::prelude::*;

verus! {

/// The empty path names the root itself, whatever its shape.
pub proof fn lemma_root_resolves(s: Confuse)
    ensures
        s.node_spec(Seq::empty(), None) == Ok::<ConfuseData, FsError>(s.root()),
        kind_of(s.root()) == FileType::Directory <==> (s.root() is List || s.root() is Mapping),
{
}

/// In a sequence of `n` children the segment `.list` names the list marker,
/// a readable file with no bytes, and the listing has `n + 1` entries, the
/// last one `.list`.
pub proof fn lemma_list_marker(l: Vec<Arc<ConfuseData>>, es: Seq<crate::fs::DirectoryEntry>)
    requires
        Confuse::list_entries(l@, es),
    ensures
        resolve_spec(ConfuseData::List(l), seq![list_name()]) == Some(ConfuseData::Marker),
        kind_of(ConfuseData::Marker) == FileType::RegularFile,
        content_of(ConfuseData::Marker).len() == 0,
        es.len() == l@.len() + 1,
        es.last().name@ == list_name(),
{
}

/// In a mapping with distinct keys, each key leads to its own entry.
pub proof fn lemma_key_finds_entry(m: Seq<(String, Arc<ConfuseData>)>, j: int)
    requires
        keys_unique(m),
        0 <= j < m.len(),
    ensures
        key_position(m, m[j].0@) == Some(j),
{
    lemma_key_position_valid(m, m[j].0@);
}

/// Every name that the listing of a mapping with distinct keys gives leads
/// back, as a path segment, to the child it was listed for.
pub proof fn lemma_listed_names_resolve(
    m: Vec<(String, Arc<ConfuseData>)>,
    es: Seq<crate::fs::DirectoryEntry>,
)
    requires
        keys_unique(m@),
        Confuse::map_entries(m@, es),
    ensures
        forall|j: int|
            0 <= j < es.len() ==> resolve_spec(ConfuseData::Mapping(m), seq![(#[trigger] es[j]).name@])
                == Some(*m@[j].1) && es[j].kind == kind_of(*m@[j].1),
{
    assert forall|j: int| 0 <= j < es.len() implies resolve_spec(
        ConfuseData::Mapping(m),
        seq![(#[trigger] es[j]).name@],
    ) == Some(*m@[j].1) by {
        lemma_key_finds_entry(m@, j);
        let segs = seq![es[j].name@];
        assert(segs[0] == m@[j].0@);
        assert(segs.drop_first() =~= Seq::<Seq<char>>::empty());
        assert(resolve_spec(*m@[j].1, Seq::empty()) == Some(*m@[j].1));
    }
}

proof fn lemma_decimal_is_index(n: nat)
    ensures
        decimal(n).len() > 0,
        forall|i: int| 0 <= i < decimal(n).len() ==> is_digit(#[trigger] decimal(n)[i]),
        digits_value(decimal(n)) == n,
    decreases n,
{
    assert(digit_char(n % 10) as nat == n % 10 + '0' as nat);
    if n < 10 {
        let s = decimal(n);
        assert(s.drop_last() =~= Seq::<char>::empty());
        assert(digits_value(s.drop_last()) == 0);
        assert(s.last() == digit_char(n));
    } else {
        assert((n / 10) * 10 + n % 10 == n) by (nonlinear_arith);
        lemma_decimal_is_index(n / 10);
        let s = decimal(n);
        assert(s.drop_last() =~= decimal(n / 10));
        assert(s.last() == digit_char(n % 10));
        assert(digits_value(s) == digits_value(decimal(n / 10)) * 10 + n % 10);
        assert forall|i: int| 0 <= i < s.len() implies is_digit(#[trigger] s[i]) by {
            if i < s.len() - 1 {
                assert(s[i] == decimal(n / 10)[i]);
            }
        }
    }
}

/// The decimal name of an index leads back to that index.
pub proof fn lemma_decimal_segment(n: nat)
    requires
        n <= usize::MAX,
    ensures
        index_of_segment(decimal(n)) == Some(n),
{
    lemma_decimal_is_index(n);
    let s = decimal(n);
    assert(is_digit(s[0]));
    assert(index_digits(s) == s);
}

/// Every index name that the listing of a sequence gives leads back, as a
/// path segment, to the child it was listed for.
pub proof fn lemma_listed_indices_resolve(
    l: Vec<Arc<ConfuseData>>,
    es: Seq<crate::fs::DirectoryEntry>,
)
    requires
        l@.len() <= usize::MAX,
        Confuse::list_entries(l@, es),
    ensures
        forall|j: int|
            0 <= j < l@.len() ==> resolve_spec(ConfuseData::List(l), seq![(#[trigger] es[j]).name@])
                == Some(*l@[j]) && es[j].kind == kind_of(*l@[j]),
{
    assert forall|j: int| 0 <= j < l@.len() implies resolve_spec(
        ConfuseData::List(l),
        seq![(#[trigger] es[j]).name@],
    ) == Some(*l@[j]) by {
        lemma_decimal_segment(j as nat);
        let segs = seq![es[j].name@];
        assert(segs[0] == decimal(j as nat));
        assert(decimal(j as nat) != list_name()) by {
            lemma_decimal_is_index(j as nat);
            assert(is_digit(decimal(j as nat)[0]));
        }
        assert(segs.drop_first() =~= Seq::<Seq<char>>::empty());
        assert(resolve_spec(*l@[j], Seq::empty()) == Some(*l@[j]));
    }
}

/// Two adjacent windows read one after the other give the window that spans
/// both.
pub proof fn lemma_windows_concatenate(c: Seq<u8>, offset: nat, a: nat, b: nat)
    ensures
        window(c, offset as int, a as int) + window(c, (offset + a) as int, b as int) =~= window(
            c,
            offset as int,
            (a + b) as int,
        ),
{
}

/// Reading from offset 0 for at least the whole length gives the whole
/// content, and reading at or past the end gives nothing.
pub proof fn lemma_window_bounds(c: Seq<u8>, offset: nat, size: nat)
    ensures
        size >= c.len() ==> window(c, 0, size as int) =~= c,
        offset >= c.len() ==> window(c, offset as int, size as int) =~= Seq::<u8>::empty(),
{
}

/// Attributes depend on the published tree and the handle table alone, so
/// asking twice on an unchanged state gives the same size and kind; a release
/// leaves the attributes of every path as they were.
pub proof fn lemma_attributes_repeat(
    s: Confuse,
    t: Confuse,
    segs: Seq<Seq<char>>,
    fh: Option<u64>,
    released: u64,
)
    ensures
        s.root() == t.root() && s.handles()@ == t.handles()@ ==> s.attr_spec(segs, fh)
            == t.attr_spec(segs, fh),
        Confuse::released(s, t, released) ==> s.attr_spec(segs, None) == t.attr_spec(segs, None),
{
}

/// A second release of the same handle changes nothing.
pub proof fn lemma_release_twice(s0: Confuse, s1: Confuse, s2: Confuse, fh: u64)
    requires
        Confuse::released(s0, s1, fh),
        Confuse::released(s1, s2, fh),
    ensures
        s2.handles()@ == s1.handles()@,
        s2.handles().next_id() == s1.handles().next_id(),
        s2.root() == s1.root(),
{
    assert(s1.handles()@.remove(fh) =~= s1.handles()@);
}

/// A step of the filesystem that hands out no id below the counter it found:
/// every id after it was there before or is at least that counter, and the
/// counter does not go back.
pub open spec fn keeps_ids_fresh(pre: Confuse, post: Confuse) -> bool {
    &&& post.handles().next_id() >= pre.handles().next_id()
    &&& forall|k: u64|
        #[trigger] post.handles()@.contains_key(k) ==> pre.handles()@.contains_key(k) || k
            >= pre.handles().next_id()
}

/// Opens and releases are such steps.
pub proof fn lemma_steps_keep_ids_fresh(
    pre: Confuse,
    post: Confuse,
    segs: Seq<Seq<char>>,
    flags: u32,
    r: Result<u64, FsError>,
    fh: u64,
)
    ensures
        Confuse::opened(pre, post, segs, flags, r) ==> keeps_ids_fresh(pre, post),
        Confuse::released(pre, post, fh) ==> keeps_ids_fresh(pre, post),
{
}

/// An open made once every stale id is below the counter returns an id
/// greater than each of them.
pub proof fn lemma_open_after_reload(
    s: Confuse,
    post: Confuse,
    segs: Seq<Seq<char>>,
    flags: u32,
    n: u64,
    id: u64,
)
    requires
        s.handles().next_id() > id,
        Confuse::opened(s, post, segs, flags, Ok(n)),
    ensures
        n > id,
{
}

/// The table holds no id below `c`, and the counter is at least `c`.
pub open spec fn no_ids_below(s: Confuse, c: u64) -> bool {
    &&& s.handles().next_id() >= c
    &&& forall|k: u64| #[trigger] s.handles()@.contains_key(k) ==> k >= c
}

proof fn lemma_fresh_step(p: Confuse, q: Confuse, c: u64)
    requires
        no_ids_below(p, c),
        keeps_ids_fresh(p, q),
    ensures
        no_ids_below(q, c),
{
    assert forall|k: u64| #[trigger] q.handles()@.contains_key(k) implies k >= c by {
        if p.handles()@.contains_key(k) {
        }
    }
}

proof fn lemma_fresh_trace(trace: Seq<Confuse>, c: u64)
    requires
        trace.len() > 0,
        no_ids_below(trace[0], c),
        forall|i: int| 0 <= i < trace.len() - 1 ==> keeps_ids_fresh(#[trigger] trace[i], trace[i + 1]),
    ensures
        forall|i: int| 0 <= i < trace.len() ==> no_ids_below(#[trigger] trace[i], c),
    decreases trace.len(),
{
    if trace.len() > 1 {
        let prefix = trace.drop_last();
        assert forall|i: int| 0 <= i < prefix.len() - 1 implies keeps_ids_fresh(
            #[trigger] prefix[i],
            prefix[i + 1],
        ) by {
            assert(keeps_ids_fresh(trace[i], trace[i + 1]));
        }
        lemma_fresh_trace(prefix, c);
        let n = trace.len() - 1;
        assert(no_ids_below(prefix[n - 1], c));
        assert(keeps_ids_fresh(trace[n - 1], trace[n]));
        lemma_fresh_step(trace[n - 1], trace[n], c);
        assert forall|i: int| 0 <= i < trace.len() implies no_ids_below(#[trigger] trace[i], c) by {
            if i < n {
                assert(no_ids_below(prefix[i], c));
            }
        }
    }
}

/// After a reload, no id handed out before it is ever found again, through
/// any run of opens and releases, and each id opened later is greater than
/// all of them.
pub proof fn lemma_reload_revokes_handles(before: Confuse, trace: Seq<Confuse>, id: u64)
    requires
        trace.len() > 0,
        trace[0].handles()@ == Map::<u64, FileHandle>::empty(),
        trace[0].handles().next_id() == before.handles().next_id(),
        forall|i: int| 0 <= i < trace.len() - 1 ==> keeps_ids_fresh(#[trigger] trace[i], trace[i + 1]),
        id < before.handles().next_id(),
    ensures
        forall|i: int|
            0 <= i < trace.len() ==> {
                &&& !(#[trigger] trace[i]).handles()@.contains_key(id)
                &&& trace[i].node_spec(Seq::empty(), Some(id)) == Err::<ConfuseData, FsError>(
                    FsError::BadDescriptor,
                )
                &&& trace[i].handles().next_id() > id
            },
{
    let c = before.handles().next_id();
    lemma_fresh_trace(trace, c);
    assert forall|i: int| 0 <= i < trace.len() implies {
        &&& !(#[trigger] trace[i]).handles()@.contains_key(id)
        &&& trace[i].handles().next_id() > id
    } by {
        assert(no_ids_below(trace[i], c));
    }
}

} // verus!
