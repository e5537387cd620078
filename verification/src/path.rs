//! The extraction path language: a dotted sequence of segments, where a
//! segment is a key, optionally followed by one bracketed index; and the
//! resolver that walks a value tree along such a path, deep-copying the
//! subtree it reaches.

use vstd::prelude::*;
use vstd::string::StrSliceExecFns;
use vstd::string::StringExecFns;
use crate::error::JsonfizzError;
use crate::text::dec_nat;
use crate::text::dec_usize;
use crate::text::parse_usize;
use crate::text::spec_parse_usize;
use crate::text::str_eq;
use crate::value::clone_value;
use crate::value::compact_string;
use crate::value::lemma_view_entries_props;
use crate::value::lemma_view_list_props;
use crate::value::spec_compact;
use crate::value::view_entries;
use crate::value::view_list;
use crate::value::Value;
use crate::value::ValueView;

verus! {

/// One step of an extraction path: an object key or an array index.
#[derive(Debug, Clone, PartialEq, Eq)]
pub enum PathSegment {
    Key(String),
    Index(usize),
}

/// The mathematical shape of a [`PathSegment`].
pub enum SegView {
    Key(Seq<char>),
    Index(int),
}

impl View for PathSegment {
    type V = SegView;

    open spec fn view(&self) -> SegView {
        match *self {
            PathSegment::Key(k) => SegView::Key(k@),
            PathSegment::Index(i) => SegView::Index(i as int),
        }
    }
}

/// A whole extraction path.
pub type JsonPath = Vec<PathSegment>;

/// The views of a sequence of segments.
pub open spec fn view_segs(s: Seq<PathSegment>) -> Seq<SegView> {
    s.map_values(|g: PathSegment| g@)
}

/// The position of the first dot, or the length when there is none.
pub open spec fn first_dot(s: Seq<char>) -> nat
    decreases s.len(),
{
    if s.len() == 0 {
        0
    } else if s[0] == '.' {
        0
    } else {
        1 + first_dot(s.drop_first())
    }
}

/// `first_dot` is exactly the position of the first dot: nothing before
/// `j` is a dot, and `j` is either a dot or the end.
proof fn lemma_first_dot(s: Seq<char>, j: int)
    requires
        0 <= j <= s.len(),
        forall|k: int| 0 <= k < j ==> s[k] != '.',
        j < s.len() ==> s[j] == '.',
    ensures
        first_dot(s) == j,
    decreases s.len(),
{
    if s.len() > 0 && s[0] != '.' {
        lemma_first_dot(s.drop_first(), j - 1);
    }
}

/// The position of the last opening bracket, or -1 when there is none.
pub open spec fn last_lbracket(s: Seq<char>) -> int
    decreases s.len(),
{
    if s.len() == 0 {
        -1
    } else if s.last() == '[' {
        s.len() - 1
    } else {
        last_lbracket(s.drop_last())
    }
}

proof fn lemma_last_lbracket_at(s: Seq<char>, k: int)
    requires
        0 <= k < s.len(),
        s[k] == '[',
        forall|m: int| k < m < s.len() ==> s[m] != '[',
    ensures
        last_lbracket(s) == k,
    decreases s.len(),
{
    if k < s.len() - 1 {
        lemma_last_lbracket_at(s.drop_last(), k);
    }
}

proof fn lemma_last_lbracket_none(s: Seq<char>)
    requires
        forall|m: int| 0 <= m < s.len() ==> s[m] != '[',
    ensures
        last_lbracket(s) == -1,
    decreases s.len(),
{
    if s.len() > 0 {
        lemma_last_lbracket_none(s.drop_last());
    }
}

/// The message for a bracket group whose content is not an accepted
/// index.
pub open spec fn spec_invalid_index_msg(content: Seq<char>, whole: Seq<char>) -> Seq<char> {
    "Invalid index '"@ + content + "' in path '"@ + whole + "'"@
}

/// The segments one dot-separated part contributes: a part with a
/// trailing bracket group yields its key portion (possibly empty) and
/// the bracketed index; any other part is one key. A bracket group
/// whose content is not an accepted non-negative integer is a path
/// error naming the content and the whole path.
pub open spec fn part_to_segs(p: Seq<char>, whole: Seq<char>) -> Result<Seq<SegView>, Seq<char>> {
    if p.len() >= 2 && p.last() == ']' && last_lbracket(p) >= 0 {
        let lbr = last_lbracket(p);
        let content = p.subrange(lbr + 1, p.len() - 1);
        match spec_parse_usize(content) {
            Some(n) => Ok(seq![SegView::Key(p.take(lbr)), SegView::Index(n as int)]),
            None => Err(spec_invalid_index_msg(content, whole)),
        }
    } else {
        Ok(seq![SegView::Key(p)])
    }
}

/// Parses the rest of a path, part by part; the first offending part
/// decides the error.
pub open spec fn spec_parse_from(s: Seq<char>, whole: Seq<char>) -> Result<
    Seq<SegView>,
    Seq<char>,
>
    decreases s.len(),
{
    let i = first_dot(s) as int;
    if i >= s.len() {
        part_to_segs(s, whole)
    } else {
        match part_to_segs(s.take(i), whole) {
            Ok(front) => match spec_parse_from(s.skip(i + 1), whole) {
                Ok(rest) => Ok(front + rest),
                Err(m) => Err(m),
            },
            Err(m) => Err(m),
        }
    }
}

/// What parsing a whole path string yields.
pub open spec fn spec_parse_path(s: Seq<char>) -> Result<Seq<SegView>, Seq<char>> {
    spec_parse_from(s, s)
}

/// Finds the first dot.
#[verifier::loop_isolation(false)]
fn scan_dot(s: &str) -> (j: usize)
    ensures
        j == first_dot(s@),
        j <= s@.len(),
{
    let len = s.unicode_len();
    let mut j: usize = 0;
    while j < len
        invariant
            j <= len,
            forall|k: int| 0 <= k < j ==> s@[k] != '.',
        decreases len - j,
    {
        if s.get_char(j) == '.' {
            proof {
                lemma_first_dot(s@, j as int);
            }
            return j;
        }
        j = j + 1;
    }
    proof {
        lemma_first_dot(s@, len as int);
    }
    len
}

/// Finds the last opening bracket, if any.
#[verifier::loop_isolation(false)]
fn scan_lbracket(s: &str) -> (r: Option<usize>)
    ensures
        r matches Some(k) ==> k < s@.len() && s@[k as int] == '[' && k as int == last_lbracket(
            s@,
        ),
        r is None ==> last_lbracket(s@) == -1,
{
    let len = s.unicode_len();
    let mut m = len;
    while m > 0
        invariant
            m <= len,
            forall|t: int| m <= t < len ==> s@[t] != '[',
        decreases m,
    {
        m = m - 1;
        if s.get_char(m) == '[' {
            proof {
                lemma_last_lbracket_at(s@, m as int);
            }
            return Some(m);
        }
    }
    proof {
        lemma_last_lbracket_none(s@);
    }
    None
}

/// Turns one dot-separated part into its segments.
fn part_segs(p: &str, whole: &str) -> (r: Result<Vec<PathSegment>, JsonfizzError>)
    ensures
        part_to_segs(p@, whole@) matches Ok(sv) ==> (r matches Ok(v) && view_segs(v@) == sv),
        part_to_segs(p@, whole@) matches Err(m) ==> (r matches Err(e) && e matches
            JsonfizzError::Path(t) && t@ == m),
{
    let len = p.unicode_len();
    if len >= 2 && p.get_char(len - 1) == ']' {
        match scan_lbracket(p) {
            Some(lbr) => {
                proof {
                    assert(p@[len - 1] != '[');
                }
                let content = p.substring_char(lbr + 1, len - 1);
                match parse_usize(content) {
                    Some(n) => {
                        let key = String::from_str(p.substring_char(0, lbr));
                        let mut out: Vec<PathSegment> = Vec::new();
                        out.push(PathSegment::Key(key));
                        out.push(PathSegment::Index(n));
                        proof {
                            assert(view_segs(out@) =~= seq![
                                SegView::Key(p@.take(lbr as int)),
                                SegView::Index(n as int),
                            ]);
                        }
                        Ok(out)
                    },
                    None => {
                        let mut m = String::from_str("Invalid index '");
                        m.append(content);
                        m.append("' in path '");
                        m.append(whole);
                        m.append("'");
                        Err(JsonfizzError::Path(m))
                    },
                }
            },
            None => {
                let mut out: Vec<PathSegment> = Vec::new();
                out.push(PathSegment::Key(String::from_str(p)));
                proof {
                    assert(view_segs(out@) =~= seq![SegView::Key(p@)]);
                }
                Ok(out)
            },
        }
    } else {
        let mut out: Vec<PathSegment> = Vec::new();
        out.push(PathSegment::Key(String::from_str(p)));
        proof {
            assert(view_segs(out@) =~= seq![SegView::Key(p@)]);
        }
        Ok(out)
    }
}

/// Parses the rest of a path string.
fn parse_from(s: &str, whole: &str) -> (r: Result<Vec<PathSegment>, JsonfizzError>)
    ensures
        spec_parse_from(s@, whole@) matches Ok(sv) ==> (r matches Ok(v) && view_segs(v@) == sv),
        spec_parse_from(s@, whole@) matches Err(m) ==> (r matches Err(e) && e matches
            JsonfizzError::Path(t) && t@ == m),
    decreases s@.len(),
{
    let len = s.unicode_len();
    let j = scan_dot(s);
    if j == len {
        part_segs(s, whole)
    } else {
        let part = s.substring_char(0, j);
        match part_segs(part, whole) {
            Ok(mut front) => {
                let rest_str = s.substring_char(j + 1, len);
                match parse_from(rest_str, whole) {
                    Ok(mut rest) => {
                        let ghost front_snap = front@;
                        let ghost rest_snap = rest@;
                        front.append(&mut rest);
                        proof {
                            assert(view_segs(front_snap + rest_snap) =~= view_segs(front_snap)
                                + view_segs(rest_snap));
                        }
                        Ok(front)
                    },
                    Err(e) => Err(e),
                }
            },
            Err(e) => Err(e),
        }
    }
}

/// Splits a path string into key and index segments: parts are
/// separated by dots, and a part may end in one bracketed non-negative
/// index. A bracket group with anything else inside is a path error.
pub fn parse_path(path: &str) -> (r: Result<JsonPath, JsonfizzError>)
    ensures
        spec_parse_path(path@) matches Ok(sv) ==> (r matches Ok(v) && view_segs(v@) == sv),
        spec_parse_path(path@) matches Err(m) ==> (r matches Err(e) && e matches
            JsonfizzError::Path(t) && t@ == m),
{
    parse_from(path, path)
}

/// Whether an entry sequence holds a key.
pub open spec fn has_key(ents: Seq<(Seq<char>, ValueView)>, k: Seq<char>) -> bool {
    exists|j: int| 0 <= j < ents.len() && ents[j].0 == k
}

/// The value stored under the first occurrence of a key.
pub open spec fn lookup(ents: Seq<(Seq<char>, ValueView)>, k: Seq<char>) -> ValueView
    recommends
        has_key(ents, k),
    decreases ents.len(),
{
    if ents.len() == 0 {
        ValueView::Null
    } else if ents.first().0 == k {
        ents.first().1
    } else {
        lookup(ents.drop_first(), k)
    }
}

proof fn lemma_lookup_at(ents: Seq<(Seq<char>, ValueView)>, k: Seq<char>, j: int)
    requires
        0 <= j < ents.len(),
        ents[j].0 == k,
        forall|m: int| 0 <= m < j ==> ents[m].0 != k,
    ensures
        has_key(ents, k),
        lookup(ents, k) == ents[j].1,
    decreases ents.len(),
{
    if j > 0 {
        lemma_lookup_at(ents.drop_first(), k, j - 1);
    }
}

/// The message when a key is missing from an object.
pub open spec fn spec_key_not_found_msg(k: Seq<char>) -> Seq<char> {
    "Key '"@ + k + "' not found"@
}

/// The message when a key segment meets something other than an object;
/// the value met is named by its compact encoding.
pub open spec fn spec_expected_object_msg(k: Seq<char>, v: ValueView) -> Seq<char> {
    "Expected object for key '"@ + k + "', found "@ + spec_compact(v)
}

/// The message when an index is out of an array's bounds.
pub open spec fn spec_index_oob_msg(i: int, len: int) -> Seq<char> {
    "Index "@ + dec_nat(i as nat) + " out of bounds (len "@ + dec_nat(len as nat) + ")"@
}

/// The message when an index segment meets something other than an
/// array; the value met is named by its compact encoding.
pub open spec fn spec_expected_array_msg(i: int, v: ValueView) -> Seq<char> {
    "Expected array for index "@ + dec_nat(i as nat) + ", found "@ + spec_compact(v)
}

/// Walking a tree along a path: an empty path yields the tree itself; a
/// key segment looks up an object entry and an index segment an array
/// element, and every mismatch is an error whose message names what was
/// asked and what was met.
pub open spec fn spec_resolve(v: ValueView, p: Seq<SegView>) -> Result<ValueView, Seq<char>>
    decreases p.len(),
{
    if p.len() == 0 {
        Ok(v)
    } else {
        match p.first() {
            SegView::Key(k) => match v {
                ValueView::Object(ents) => if has_key(ents, k) {
                    spec_resolve(lookup(ents, k), p.drop_first())
                } else {
                    Err(spec_key_not_found_msg(k))
                },
                _ => Err(spec_expected_object_msg(k, v)),
            },
            SegView::Index(i) => match v {
                ValueView::Array(elems) => if 0 <= i < elems.len() {
                    spec_resolve(elems[i], p.drop_first())
                } else {
                    Err(spec_index_oob_msg(i, elems.len() as int))
                },
                _ => Err(spec_expected_array_msg(i, v)),
            },
        }
    }
}

/// Finds the first entry with the given key.
#[verifier::loop_isolation(false)]
pub(crate) fn find_key(o: &Vec<(String, Value)>, k: &str) -> (r: Option<usize>)
    ensures
        r matches Some(j) ==> j < o.len() && has_key(view_entries(o@), k@) && lookup(
            view_entries(o@),
            k@,
        ) == view_entries(o@)[j as int].1,
        r is None ==> !has_key(view_entries(o@), k@),
{
    proof {
        lemma_view_entries_props(o@);
    }
    let ghost ents = view_entries(o@);
    let mut j: usize = 0;
    while j < o.len()
        invariant
            j <= o.len(),
            forall|m: int| 0 <= m < j ==> ents[m].0 != k@,
        decreases o.len() - j,
    {
        if str_eq(o[j].0.as_str(), k) {
            proof {
                lemma_lookup_at(ents, k@, j as int);
            }
            return Some(j);
        }
        j = j + 1;
    }
    None
}

/// Walks a tree along a parsed path and hands back a deep copy of the
/// subtree it reaches, or the path error the walk runs into.
#[verifier::loop_isolation(false)]
pub fn resolve(value: &Value, path: &JsonPath) -> (r: Result<Value, JsonfizzError>)
    ensures
        spec_resolve(value@, view_segs(path@)) matches Ok(out) ==> (r matches Ok(rv) && rv@
            == out),
        spec_resolve(value@, view_segs(path@)) matches Err(m) ==> (r matches Err(e) && e matches
            JsonfizzError::Path(t) && t@ == m),
{
    let ghost segs = view_segs(path@);
    let mut cur: &Value = value;
    let mut i: usize = 0;
    proof {
        assert(segs.skip(0) =~= segs);
    }
    while i < path.len()
        invariant
            i <= path.len(),
            spec_resolve(value@, segs) == spec_resolve(cur@, segs.skip(i as int)),
        decreases path.len() - i,
    {
        proof {
            assert(segs.skip(i as int).first() == segs[i as int]);
            assert(segs[i as int] == path@[i as int]@);
            assert(segs.skip(i as int).drop_first() =~= segs.skip(i + 1));
        }
        match &path[i] {
            PathSegment::Key(k) => {
                match cur {
                    Value::Object(o) => {
                        match find_key(o, k.as_str()) {
                            Some(j) => {
                                cur = &o[j].1;
                                proof {
                                    lemma_view_entries_props(o@);
                                }
                            },
                            None => {
                                let mut m = String::from_str("Key '");
                                m.append(k.as_str());
                                m.append("' not found");
                                return Err(JsonfizzError::Path(m));
                            },
                        }
                    },
                    _ => {
                        let mut m = String::from_str("Expected object for key '");
                        m.append(k.as_str());
                        m.append("', found ");
                        let rendered = compact_string(cur);
                        m.append(rendered.as_str());
                        return Err(JsonfizzError::Path(m));
                    },
                }
            },
            PathSegment::Index(idx) => {
                match cur {
                    Value::Array(a) => {
                        if *idx < a.len() {
                            cur = &a[*idx];
                            proof {
                                lemma_view_list_props(a@);
                            }
                        } else {
                            let mut m = String::from_str("Index ");
                            m.append(dec_usize(*idx).as_str());
                            m.append(" out of bounds (len ");
                            m.append(dec_usize(a.len()).as_str());
                            m.append(")");
                            proof {
                                lemma_view_list_props(a@);
                            }
                            return Err(JsonfizzError::Path(m));
                        }
                    },
                    _ => {
                        let mut m = String::from_str("Expected array for index ");
                        m.append(dec_usize(*idx).as_str());
                        m.append(", found ");
                        let rendered = compact_string(cur);
                        m.append(rendered.as_str());
                        return Err(JsonfizzError::Path(m));
                    },
                }
            },
        }
        i = i + 1;
    }
    proof {
        assert(segs.skip(path@.len() as int) =~= Seq::<SegView>::empty());
    }
    Ok(clone_value(cur))
}

/// Applies an optional extraction path: with none, the tree is handed
/// back whole (deep-copied); with one, it is parsed and resolved, and
/// either step's error is reported.
pub fn apply_get(value: &Value, get_path: &Option<String>) -> (r: Result<Value, JsonfizzError>)
    ensures
        get_path is None ==> (r matches Ok(rv) && rv@ == value@),
        get_path matches Some(p) ==> ((spec_parse_path(p@) matches Err(m) ==> (r matches Err(e)
            && e matches JsonfizzError::Path(t) && t@ == m)) && (spec_parse_path(p@) matches Ok(sv)
            ==> ((spec_resolve(value@, sv) matches Ok(out) ==> (r matches Ok(rv) && rv@ == out))
            && (spec_resolve(value@, sv) matches Err(m2) ==> (r matches Err(e2) && e2 matches
            JsonfizzError::Path(t2) && t2@ == m2))))),
{
    match get_path {
        Some(path_str) => {
            match parse_path(path_str.as_str()) {
                Ok(path) => resolve(value, &path),
                Err(e) => Err(e),
            }
        },
        None => Ok(clone_value(value)),
    }
}

/// Resolving along a concatenation of two paths is resolving along the
/// first, then along the second from wherever the first arrived; the
/// first error on the way wins.
pub proof fn lemma_resolve_append(v: ValueView, p: Seq<SegView>, q: Seq<SegView>)
    ensures
        spec_resolve(v, p + q) == (match spec_resolve(v, p) {
            Ok(w) => spec_resolve(w, q),
            Err(m) => Err(m),
        }),
    decreases p.len(),
{
    if p.len() == 0 {
        assert(p + q =~= q);
    } else {
        assert((p + q).first() == p.first());
        assert((p + q).drop_first() =~= p.drop_first() + q);
        match p.first() {
            SegView::Key(k) => {
                match v {
                    ValueView::Object(ents) => {
                        if has_key(ents, k) {
                            lemma_resolve_append(lookup(ents, k), p.drop_first(), q);
                        }
                    },
                    _ => {},
                }
            },
            SegView::Index(i) => {
                match v {
                    ValueView::Array(elems) => {
                        if 0 <= i < elems.len() {
                            lemma_resolve_append(elems[i], p.drop_first(), q);
                        }
                    },
                    _ => {},
                }
            },
        }
    }
}

} // verus!
