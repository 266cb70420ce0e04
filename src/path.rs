use crate::data::ConfuseData;
use crate::error::FsError;
use crate::shared::share;
use std::sync::Arc;
use vstd::prelude::*;
use vstd::string::*;

verus! {

/// The name of the pseudo-entry that every sequence directory holds.
pub open spec fn list_name() -> Seq<char> {
    seq!['.', 'l', 'i', 's', 't']
}

pub open spec fn is_digit(c: char) -> bool {
    '0' <= c <= '9'
}

/// The value of a string of decimal digits.
pub open spec fn digits_value(s: Seq<char>) -> nat
    decreases s.len(),
{
    if s.len() == 0 {
        0
    } else {
        digits_value(s.drop_last()) * 10 + (s.last() as nat - '0' as nat) as nat
    }
}

/// The digits of an index segment: an optional leading `+` is dropped.
pub open spec fn index_digits(s: Seq<char>) -> Seq<char> {
    if s.len() > 0 && s[0] == '+' {
        s.drop_first()
    } else {
        s
    }
}

/// The index that a path segment names in a sequence: a non-empty run of
/// decimal digits, after an optional `+`, whose value fits in `usize`.
pub open spec fn index_of_segment(s: Seq<char>) -> Option<nat> {
    let d = index_digits(s);
    if d.len() > 0 && (forall|i: int| 0 <= i < d.len() ==> is_digit(#[trigger] d[i]))
        && digits_value(d) <= usize::MAX {
        Some(digits_value(d))
    } else {
        None
    }
}

/// The position of the first entry of a mapping whose key is `k`.
pub open spec fn key_position(m: Seq<(String, Arc<ConfuseData>)>, k: Seq<char>) -> Option<int>
    decreases m.len(),
{
    if m.len() == 0 {
        None
    } else {
        match key_position(m.drop_last(), k) {
            Some(i) => Some(i),
            None => if m.last().0@ == k {
                Some(m.len() - 1)
            } else {
                None
            },
        }
    }
}

/// The node that one path segment leads to from `d`, where the walk goes on.
pub open spec fn child_of(d: ConfuseData, seg: Seq<char>) -> Option<ConfuseData> {
    match d {
        ConfuseData::List(l) => match index_of_segment(seg) {
            Some(i) => if i < l.len() {
                Some(*l@[i as int])
            } else {
                None
            },
            None => None,
        },
        ConfuseData::Mapping(m) => match key_position(m@, seg) {
            Some(i) => Some(*m@[i].1),
            None => None,
        },
        _ => None,
    }
}

/// The node that a path (its segments, the root's excluded) names below `d`.
/// A `.list` segment at a sequence ends the walk with the list marker.
pub open spec fn resolve_spec(d: ConfuseData, segs: Seq<Seq<char>>) -> Option<ConfuseData>
    decreases segs.len(),
{
    if segs.len() == 0 {
        Some(d)
    } else if d is List && segs[0] == list_name() {
        Some(ConfuseData::Marker)
    } else {
        match child_of(d, segs[0]) {
            Some(c) => resolve_spec(c, segs.drop_first()),
            None => None,
        }
    }
}

/// The decimal text of `n`, without leading zeros.
pub open spec fn decimal(n: nat) -> Seq<char>
    decreases n,
{
    if n < 10 {
        seq![digit_char(n)]
    } else {
        decimal(n / 10).push(digit_char(n % 10))
    }
}

pub open spec fn digit_char(d: nat) -> char {
    ((d + '0' as nat) as u32) as char
}

/// Relies on `usize`'s `Display` impl (through `to_string`): the decimal
/// digits of the value, without sign or leading zeros.
#[verifier::external_body]
pub(crate) fn decimal_name(n: usize) -> (r: String)
    ensures
        r@ == decimal(n as nat),
{
    n.to_string()
}

/// The segments of a path as sequences of characters.
pub open spec fn segments_view(segs: Seq<String>) -> Seq<Seq<char>> {
    segs.map_values(|s: String| s@)
}

proof fn lemma_digits_grow(s: Seq<char>)
    requires
        s.len() > 0,
        is_digit(s.last()),
    ensures
        digits_value(s) >= digits_value(s.drop_last()) * 10,
        digits_value(s) <= digits_value(s.drop_last()) * 10 + 9,
{
}

/// Reads a path segment as an index into a sequence.
pub fn parse_index(s: &String) -> (r: Option<usize>)
    ensures
        match r {
            Some(i) => index_of_segment(s@) == Some(i as nat),
            None => index_of_segment(s@) is None,
        },
{
    let text = s.as_str();
    let n = text.unicode_len();
    let mut start: usize = 0;
    if n > 0 && text.get_char(0) == '+' {
        start = 1;
    }
    let ghost d = index_digits(s@);
    assert(d =~= s@.subrange(start as int, n as int));
    if start >= n {
        return None;
    }
    let mut acc: usize = 0;
    let mut over: bool = false;
    let mut i: usize = start;
    while i < n
        invariant
            start <= i <= n,
            n == s@.len(),
            text@ == s@,
            d == index_digits(s@),
            d =~= s@.subrange(start as int, n as int),
            forall|j: int| 0 <= j < i - start ==> is_digit(#[trigger] d[j]),
            !over ==> acc == digits_value(d.subrange(0, i - start)),
            over ==> digits_value(d.subrange(0, i - start)) > usize::MAX,
        decreases n - i,
    {
        let c = text.get_char(i);
        if !('0' <= c && c <= '9') {
            assert(!is_digit(d[i - start]));
            return None;
        }
        let ghost pre = d.subrange(0, i - start);
        let ghost next = d.subrange(0, i + 1 - start);
        assert(next.drop_last() =~= pre);
        assert(next.last() == c);
        proof {
            lemma_digits_grow(next);
        }
        let digit = (c as u32 - '0' as u32) as usize;
        if !over {
            if acc > (usize::MAX - digit) / 10 {
                over = true;
                assert(digits_value(next) > usize::MAX) by (nonlinear_arith)
                    requires
                        acc > (usize::MAX - digit) / 10,
                        digits_value(next) == acc * 10 + digit,
                        digit <= 9,
                ;
            } else {
                assert(acc * 10 + digit <= usize::MAX) by (nonlinear_arith)
                    requires
                        acc <= (usize::MAX - digit) / 10,
                        digit <= 9,
                ;
                acc = acc * 10 + digit;
            }
        }
        i = i + 1;
    }
    assert(d.subrange(0, n - start) =~= d);
    if over {
        None
    } else {
        Some(acc)
    }
}

} // verus!

verus! {

proof fn lemma_key_position_prefix(m: Seq<(String, Arc<ConfuseData>)>, k: Seq<char>, len: int)
    requires
        0 <= len <= m.len(),
        key_position(m.subrange(0, len), k) is Some,
    ensures
        key_position(m, k) == key_position(m.subrange(0, len), k),
    decreases m.len() - len,
{
    if len < m.len() {
        assert(m.drop_last().subrange(0, len) =~= m.subrange(0, len));
        lemma_key_position_prefix(m.drop_last(), k, len);
    } else {
        assert(m.subrange(0, len) =~= m);
    }
}

/// A position that `key_position` gives holds that key.
pub proof fn lemma_key_position_valid(m: Seq<(String, Arc<ConfuseData>)>, k: Seq<char>)
    ensures
        match key_position(m, k) {
            Some(i) => 0 <= i < m.len() && m[i].0@ == k,
            None => forall|j: int| 0 <= j < m.len() ==> #[trigger] m[j].0@ != k,
        },
    decreases m.len(),
{
    if m.len() > 0 {
        lemma_key_position_valid(m.drop_last(), k);
        assert forall|j: int| 0 <= j < m.len() - 1 implies #[trigger] m[j].0@ == m.drop_last()[j].0@ by {}
    }
}

/// The entry of a mapping whose key is `k`, the first one where several are.
pub fn lookup_key(m: &Vec<(String, Arc<ConfuseData>)>, k: &String) -> (r: Option<usize>)
    ensures
        match r {
            Some(i) => key_position(m@, k@) == Some(i as int),
            None => key_position(m@, k@) is None,
        },
{
    let mut i: usize = 0;
    while i < m.len()
        invariant
            0 <= i <= m@.len(),
            key_position(m@.subrange(0, i as int), k@) is None,
        decreases m@.len() - i,
    {
        let ghost next = m@.subrange(0, i + 1);
        assert(next.drop_last() =~= m@.subrange(0, i as int));
        if m[i].0 == *k {
            proof {
                lemma_key_position_prefix(m@, k@, i + 1);
            }
            return Some(i);
        }
        i = i + 1;
    }
    assert(m@.subrange(0, i as int) =~= m@);
    None
}

/// The characters of the `.list` entry name.
pub fn list_name_string() -> (r: String)
    ensures
        r@ == list_name(),
{
    let r = ".list".to_owned();
    proof {
        reveal_strlit(".list");
    }
    assert(r@ =~= list_name());
    r
}

/// Walks the path `segs` (the root's segment excluded) down from `root`.
pub fn resolve(root: &Arc<ConfuseData>, segs: &Vec<String>) -> (r: Result<Arc<ConfuseData>, FsError>)
    ensures
        match resolve_spec(**root, segments_view(segs@)) {
            Some(d) => r is Ok && *r->Ok_0 == d,
            None => r == Err::<Arc<ConfuseData>, FsError>(FsError::NotFound),
        },
{
    let ghost sv = segments_view(segs@);
    let list = list_name_string();
    let mut cur: Arc<ConfuseData> = share(root);
    let mut i: usize = 0;
    assert(sv.subrange(0, sv.len() as int) =~= sv);
    while i < segs.len()
        invariant
            0 <= i <= segs@.len(),
            sv == segments_view(segs@),
            list@ == list_name(),
            resolve_spec(**root, sv) == resolve_spec(*cur, sv.subrange(i as int, sv.len() as int)),
        decreases segs@.len() - i,
    {
        let ghost rest = sv.subrange(i as int, sv.len() as int);
        assert(rest[0] == segs@[i as int]@);
        assert(rest.drop_first() =~= sv.subrange(i + 1, sv.len() as int));
        let seg = &segs[i];
        match &*cur {
            ConfuseData::List(l) => {
                if *seg == list {
                    return Ok(Arc::new(ConfuseData::Marker));
                }
                match parse_index(seg) {
                    Some(idx) => {
                        if idx < l.len() {
                            let next = share(&l[idx]);
                            cur = next;
                        } else {
                            return Err(FsError::NotFound);
                        }
                    },
                    None => {
                        return Err(FsError::NotFound);
                    },
                }
            },
            ConfuseData::Mapping(m) => {
                match lookup_key(m, seg) {
                    Some(idx) => {
                        proof {
                            lemma_key_position_valid(m@, seg@);
                        }
                        let next = share(&m[idx].1);
                        cur = next;
                    },
                    None => {
                        return Err(FsError::NotFound);
                    },
                }
            },
            _ => {
                return Err(FsError::NotFound);
            },
        }
        i = i + 1;
    }
    assert(sv.subrange(i as int, sv.len() as int) =~= Seq::<Seq<char>>::empty());
    Ok(cur)
}

} // verus!
