//! The recursive renderer: compact single-line encoding, or indented
//! multi-line output with optional key sorting, depth truncation,
//! string truncation and token styling.

use vstd::prelude::*;
use vstd::string::StrSliceExecFns;
use vstd::string::StringExecFns;
use vstd::arithmetic::mul::lemma_mul_inequality;
use vstd::seq_lib::group_to_multiset_ensures;
use crate::config::Config;
use crate::error::JsonfizzError;
use crate::text::lex_leq;
use crate::text::make_spaces;
use crate::text::push_char;
use crate::text::spaces;
use crate::text::str_lex_leq;
use crate::theme::colorize;
use crate::theme::spec_colorize;
use crate::theme::Theme;
use crate::theme::TokenKind;
use crate::value::compact_string;
use crate::value::height;
use crate::value::height_entries;
use crate::value::height_list;
use crate::value::lemma_view_entries_props;
use crate::value::lemma_view_list_props;
use crate::value::spec_compact;
use crate::value::view_entries;
use crate::value::view_list;
use crate::value::view_value;
use crate::value::Value;
use crate::value::ValueView;

verus! {

/// Inserts an entry into a key-sorted entry sequence, before the first
/// entry whose key is not smaller.
pub open spec fn insert_sorted(
    e: (Seq<char>, ValueView),
    s: Seq<(Seq<char>, ValueView)>,
) -> Seq<(Seq<char>, ValueView)>
    decreases s.len(),
{
    if s.len() == 0 {
        seq![e]
    } else if lex_leq(e.0, s.first().0) {
        seq![e] + s
    } else {
        seq![s.first()] + insert_sorted(e, s.drop_first())
    }
}

/// Sorts object entries by key, lexicographically.
pub open spec fn sort_entries(s: Seq<(Seq<char>, ValueView)>) -> Seq<(Seq<char>, ValueView)>
    decreases s.len(),
{
    if s.len() == 0 {
        s
    } else {
        insert_sorted(s.first(), sort_entries(s.drop_first()))
    }
}

/// A tree with every object's entries sorted by key, recursively.
pub open spec fn spec_sort_value(v: ValueView) -> ValueView
    decreases v,
{
    match v {
        ValueView::Array(a) => ValueView::Array(sort_list(a)),
        ValueView::Object(o) => ValueView::Object(sort_entries(sort_children(o))),
        _ => v,
    }
}

/// Sorts the objects inside each element of a sequence.
pub open spec fn sort_list(s: Seq<ValueView>) -> Seq<ValueView>
    decreases s,
{
    if s.len() == 0 {
        s
    } else {
        sort_list(s.drop_last()).push(spec_sort_value(s.last()))
    }
}

/// Sorts the objects inside each entry's value, keeping entry order.
pub open spec fn sort_children(s: Seq<(Seq<char>, ValueView)>) -> Seq<(Seq<char>, ValueView)>
    decreases s,
{
    if s.len() == 0 {
        s
    } else {
        sort_children(s.drop_last()).push((s.last().0, spec_sort_value(s.last().1)))
    }
}

proof fn lemma_sort_list_props(s: Seq<ValueView>)
    ensures
        sort_list(s).len() == s.len(),
        forall|i: int| 0 <= i < s.len() ==> sort_list(s)[i] == spec_sort_value(s[i]),
    decreases s.len(),
{
    if s.len() > 0 {
        lemma_sort_list_props(s.drop_last());
    }
}

proof fn lemma_sort_children_props(s: Seq<(Seq<char>, ValueView)>)
    ensures
        sort_children(s).len() == s.len(),
        forall|i: int|
            0 <= i < s.len() ==> sort_children(s)[i] == (s[i].0, spec_sort_value(s[i].1)),
    decreases s.len(),
{
    if s.len() > 0 {
        lemma_sort_children_props(s.drop_last());
    }
}

/// Whether entries stand in non-decreasing key order.
pub open spec fn entries_sorted(s: Seq<(Seq<char>, ValueView)>) -> bool {
    forall|i: int, j: int| 0 <= i < j < s.len() ==> lex_leq(s[i].0, s[j].0)
}

/// The lexicographic order is total: one direction always holds.
pub proof fn lemma_lex_total(a: Seq<char>, b: Seq<char>)
    ensures
        lex_leq(a, b) || lex_leq(b, a),
    decreases a.len(),
{
    if a.len() > 0 && b.len() > 0 && (a[0] as u32) == (b[0] as u32) {
        lemma_lex_total(a.drop_first(), b.drop_first());
    }
}

/// The lexicographic order is transitive.
pub proof fn lemma_lex_trans(a: Seq<char>, b: Seq<char>, c: Seq<char>)
    requires
        lex_leq(a, b),
        lex_leq(b, c),
    ensures
        lex_leq(a, c),
    decreases a.len(),
{
    if a.len() > 0 && b.len() > 0 && c.len() > 0 && (a[0] as u32) == (b[0] as u32) && (
    b[0] as u32) == (c[0] as u32) {
        lemma_lex_trans(a.drop_first(), b.drop_first(), c.drop_first());
    }
}

/// Inserting into a sorted entry sequence keeps it sorted and adds
/// exactly the new entry to its contents.
pub proof fn lemma_insert_sorted_props(e: (Seq<char>, ValueView), s: Seq<(Seq<char>, ValueView)>)
    requires
        entries_sorted(s),
    ensures
        entries_sorted(insert_sorted(e, s)),
        insert_sorted(e, s).to_multiset() == s.to_multiset().insert(e),
        insert_sorted(e, s).len() == s.len() + 1,
        forall|i: int|
            0 <= i < insert_sorted(e, s).len() ==> (insert_sorted(e, s)[i] == e || s.contains(
                insert_sorted(e, s)[i],
            )),
    decreases s.len(),
{
    broadcast use group_to_multiset_ensures;

    let r = insert_sorted(e, s);
    if s.len() == 0 {
        assert(r =~= seq![e]);
        assert(r.to_multiset() =~= s.to_multiset().insert(e));
    } else if lex_leq(e.0, s.first().0) {
        assert(r =~= s.insert(0, e));
        assert(s.insert(0, e).to_multiset() == s.to_multiset().insert(e));
        assert forall|j: int| 0 <= j < s.len() implies lex_leq(e.0, s[j].0) by {
            if j > 0 {
                lemma_lex_trans(e.0, s[0].0, s[j].0);
            }
        }
    } else {
        lemma_lex_total(e.0, s.first().0);
        lemma_insert_sorted_props(e, s.drop_first());
        let t = insert_sorted(e, s.drop_first());
        assert(r =~= t.insert(0, s.first()));
        assert(t.insert(0, s.first()).to_multiset() == t.to_multiset().insert(s.first()));
        assert(s =~= s.drop_first().insert(0, s.first()));
        assert(s.drop_first().insert(0, s.first()).to_multiset() == s.drop_first().to_multiset()
            .insert(s.first()));
        assert(r.to_multiset() =~= s.to_multiset().insert(e));
        assert(r.drop_first() =~= t);
        assert forall|i: int, j: int| 0 <= i < j < r.len() implies lex_leq(r[i].0, r[j].0) by {
            if i == 0 {
                let x = r[j];
                assert(x == t[j - 1]);
                if x == e {
                    assert(lex_leq(s.first().0, e.0));
                } else {
                    assert(s.drop_first().contains(x));
                    let w = choose|w: int|
                        0 <= w < s.drop_first().len() && s.drop_first()[w] == x;
                    assert(s[w + 1] == x);
                    assert(lex_leq(s[0].0, s[w + 1].0));
                }
            } else {
                assert(r[i] == t[i - 1] && r[j] == t[j - 1]);
            }
        }
    }
}

/// Sorting object entries yields a key-sorted sequence with exactly the
/// same entries, so a rendering with `sort_keys` set emits the same
/// entries in deterministic, lexicographically non-decreasing key order.
pub proof fn lemma_sort_entries_ensures(s: Seq<(Seq<char>, ValueView)>)
    ensures
        entries_sorted(sort_entries(s)),
        sort_entries(s).to_multiset() == s.to_multiset(),
        sort_entries(s).len() == s.len(),
    decreases s.len(),
{
    broadcast use group_to_multiset_ensures;

    if s.len() > 0 {
        lemma_sort_entries_ensures(s.drop_first());
        lemma_insert_sorted_props(s.first(), sort_entries(s.drop_first()));
        assert(s =~= s.drop_first().insert(0, s.first()));
        assert(s.drop_first().insert(0, s.first()).to_multiset() == s.drop_first().to_multiset()
            .insert(s.first()));
        assert(sort_entries(s).to_multiset() =~= s.to_multiset());
    }
}

proof fn lemma_height_list_congr(x: Seq<ValueView>, s: Seq<ValueView>)
    requires
        x.len() == s.len(),
        forall|i: int| 0 <= i < s.len() ==> height(x[i]) == height(s[i]),
    ensures
        height_list(x) == height_list(s),
    decreases s.len(),
{
    if s.len() > 0 {
        lemma_height_list_congr(x.drop_first(), s.drop_first());
    }
}

proof fn lemma_height_entries_congr(x: Seq<(Seq<char>, ValueView)>, s: Seq<(Seq<char>, ValueView)>)
    requires
        x.len() == s.len(),
        forall|i: int| 0 <= i < s.len() ==> height(x[i].1) == height(s[i].1),
    ensures
        height_entries(x) == height_entries(s),
    decreases s.len(),
{
    if s.len() > 0 {
        lemma_height_entries_congr(x.drop_first(), s.drop_first());
    }
}

proof fn lemma_height_insert(e: (Seq<char>, ValueView), s: Seq<(Seq<char>, ValueView)>)
    ensures
        height_entries(insert_sorted(e, s)) == if height(e.1) >= height_entries(s) {
            height(e.1)
        } else {
            height_entries(s)
        },
    decreases s.len(),
{
    let r = insert_sorted(e, s);
    if s.len() == 0 {
        assert(r =~= seq![e]);
        assert(r.first() == e);
        assert(r.drop_first() =~= Seq::<(Seq<char>, ValueView)>::empty());
        assert(height_entries(r.drop_first()) == 0);
        assert(height_entries(r) == height(e.1));
    } else if lex_leq(e.0, s.first().0) {
        assert(r =~= seq![e] + s);
        assert(r.first() == e);
        assert(r.drop_first() =~= s);
        assert(height_entries(r) == if height(e.1) >= height_entries(s) {
            height(e.1)
        } else {
            height_entries(s)
        });
    } else {
        lemma_height_insert(e, s.drop_first());
        let t = insert_sorted(e, s.drop_first());
        assert(r =~= seq![s.first()] + t);
        assert(r.first() == s.first());
        assert(r.drop_first() =~= t);
        assert(height_entries(r) == if height(s.first().1) >= height_entries(t) {
            height(s.first().1)
        } else {
            height_entries(t)
        });
        assert(height_entries(s) == if height(s.first().1) >= height_entries(s.drop_first()) {
            height(s.first().1)
        } else {
            height_entries(s.drop_first())
        });
    }
}

proof fn lemma_height_sort_entries(s: Seq<(Seq<char>, ValueView)>)
    ensures
        height_entries(sort_entries(s)) == height_entries(s),
    decreases s.len(),
{
    if s.len() > 0 {
        lemma_height_sort_entries(s.drop_first());
        lemma_height_insert(s.first(), sort_entries(s.drop_first()));
    }
}

/// Sorting keys nowhere changes how deep a tree nests.
pub proof fn lemma_height_sort_value(v: ValueView)
    ensures
        height(spec_sort_value(v)) == height(v),
    decreases v,
{
    match v {
        ValueView::Array(a) => {
            lemma_sort_list_props(a);
            assert forall|i: int| 0 <= i < a.len() implies height(sort_list(a)[i]) == height(
                a[i],
            ) by {
                lemma_height_sort_value(a[i]);
            }
            lemma_height_list_congr(sort_list(a), a);
        },
        ValueView::Object(o) => {
            lemma_sort_children_props(o);
            assert forall|i: int| 0 <= i < o.len() implies height(sort_children(o)[i].1) == height(
                o[i].1,
            ) by {
                lemma_height_sort_value(o[i].1);
            }
            lemma_height_entries_congr(sort_children(o), o);
            lemma_height_sort_entries(sort_children(o));
        },
        _ => {},
    }
}

/// Inserts an entry into a key-sorted vector of entries.
fn insert_entry(e: (String, Value), v: Vec<(String, Value)>) -> (r: Vec<(String, Value)>)
    ensures
        view_entries(r@) == insert_sorted((e.0@, e.1@), view_entries(v@)),
    decreases v@.len(),
{
    let ghost s = view_entries(v@);
    let ghost ev = (e.0@, e.1@);
    proof {
        lemma_view_entries_props(v@);
    }
    let mut v = v;
    if v.len() == 0 {
        v.push(e);
        proof {
            lemma_view_entries_props(v@);
            assert(view_entries(v@) =~= insert_sorted(ev, s));
        }
        v
    } else if str_lex_leq(e.0.as_str(), v[0].0.as_str()) {
        v.insert(0, e);
        proof {
            lemma_view_entries_props(v@);
            assert(view_entries(v@) =~= seq![ev] + s);
        }
        v
    } else {
        let first = v.remove(0);
        proof {
            lemma_view_entries_props(v@);
            assert(view_entries(v@) =~= s.drop_first());
        }
        let mut r = insert_entry(e, v);
        let ghost t = view_entries(r@);
        proof {
            lemma_view_entries_props(r@);
        }
        r.insert(0, first);
        proof {
            lemma_view_entries_props(r@);
            assert(view_entries(r@) =~= seq![s.first()] + t);
        }
        r
    }
}

/// Sorts a vector of object entries by key.
fn sort_entries_vec(v: Vec<(String, Value)>) -> (r: Vec<(String, Value)>)
    ensures
        view_entries(r@) == sort_entries(view_entries(v@)),
    decreases v@.len(),
{
    let ghost s = view_entries(v@);
    proof {
        lemma_view_entries_props(v@);
    }
    let mut v = v;
    if v.len() == 0 {
        return v;
    }
    let first = v.remove(0);
    proof {
        lemma_view_entries_props(v@);
        assert(view_entries(v@) =~= s.drop_first());
    }
    let sorted = sort_entries_vec(v);
    insert_entry(first, sorted)
}

/// Deep-copies a tree with every object's entries sorted by key.
#[verifier::loop_isolation(false)]
fn sort_value(v: &Value) -> (r: Value)
    ensures
        r@ == spec_sort_value(v@),
    decreases *v,
{
    match v {
        Value::Null => Value::Null,
        Value::Bool(b) => Value::Bool(*b),
        Value::Number(n) => Value::Number(n.clone()),
        Value::String(s) => Value::String(s.clone()),
        Value::Array(a) => {
            let ghost elems = view_list(a@);
            proof {
                lemma_view_list_props(a@);
                lemma_sort_list_props(elems);
            }
            let mut out: Vec<Value> = Vec::new();
            let mut i: usize = 0;
            while i < a.len()
                invariant
                    i <= a.len(),
                    out@.len() == i,
                    forall|j: int|
                        0 <= j < i ==> view_value(out@[j]) == spec_sort_value(elems[j]),
                decreases a.len() - i,
            {
                let c = sort_value(&a[i]);
                out.push(c);
                i = i + 1;
            }
            proof {
                lemma_view_list_props(out@);
                assert(view_list(out@) =~= sort_list(elems));
            }
            Value::Array(out)
        },
        Value::Object(o) => {
            let ghost ents = view_entries(o@);
            proof {
                lemma_view_entries_props(o@);
                lemma_sort_children_props(ents);
            }
            let mut kids: Vec<(String, Value)> = Vec::new();
            let mut i: usize = 0;
            while i < o.len()
                invariant
                    i <= o.len(),
                    kids@.len() == i,
                    forall|j: int|
                        0 <= j < i ==> kids@[j].0@ == ents[j].0 && view_value(kids@[j].1)
                            == spec_sort_value(ents[j].1),
                decreases o.len() - i,
            {
                let k = o[i].0.clone();
                let c = sort_value(&o[i].1);
                kids.push((k, c));
                i = i + 1;
            }
            proof {
                lemma_view_entries_props(kids@);
                assert(view_entries(kids@) =~= sort_children(ents));
            }
            let sorted = sort_entries_vec(kids);
            Value::Object(sorted)
        },
    }
}

proof fn lemma_height_list_elem(s: Seq<ValueView>, i: int)
    requires
        0 <= i < s.len(),
    ensures
        height(s[i]) <= height_list(s),
    decreases s.len(),
{
    if i > 0 {
        lemma_height_list_elem(s.drop_first(), i - 1);
    }
}

proof fn lemma_height_entries_elem(s: Seq<(Seq<char>, ValueView)>, i: int)
    requires
        0 <= i < s.len(),
    ensures
        height(s[i].1) <= height_entries(s),
    decreases s.len(),
{
    if i > 0 {
        lemma_height_entries_elem(s.drop_first(), i - 1);
    }
}

/// What a string shows under an optional length limit: a string longer
/// than the limit keeps its first `limit - 1` characters (none when the
/// limit is zero) and gains one ellipsis character.
pub open spec fn spec_trunc(s: Seq<char>, max: Option<usize>) -> Seq<char> {
    match max {
        Some(m) => if s.len() > m {
            s.take(if m == 0 {
                0
            } else {
                m - 1
            }) + seq!['…']
        } else {
            s
        },
        None => s,
    }
}

/// Truncation only ever shortens the display: a string within the limit
/// is untouched, a longer one displays exactly `limit` characters (one,
/// the ellipsis alone, when the limit is zero), ending in the ellipsis.
pub proof fn law_string_truncation(s: Seq<char>, m: usize)
    ensures
        s.len() <= m ==> spec_trunc(s, Some(m)) == s,
        s.len() > m && m >= 1 ==> (spec_trunc(s, Some(m)) == s.take(m - 1) + seq!['…']
            && spec_trunc(s, Some(m)).len() == m),
        s.len() > m && m == 0 ==> spec_trunc(s, Some(m)).len() == 1,
{
}

/// The plain rendering of a tree, with no key sorting: indented lines,
/// styled tokens, and the depth and string truncations applied. A node
/// deeper than `max_depth` renders as a styled placeholder alone.
pub open spec fn spec_format_plain(v: ValueView, c: Config, t: Theme, depth: nat) -> Seq<char>
    decreases v,
{
    if c.max_depth is Some && depth > c.max_depth.unwrap() {
        match v {
            ValueView::Object(_) => spec_colorize(("{…}")@, TokenKind::Punctuation, t),
            ValueView::Array(_) => spec_colorize(("[…]")@, TokenKind::Punctuation, t),
            _ => spec_colorize(("…")@, TokenKind::String, t),
        }
    } else {
        match v {
            ValueView::Null => spec_colorize(("null")@, TokenKind::Null, t),
            ValueView::Bool(b) => spec_colorize(
                if b {
                    ("true")@
                } else {
                    ("false")@
                },
                TokenKind::Bool,
                t,
            ),
            ValueView::Number(n) => spec_colorize(n, TokenKind::Number, t),
            ValueView::String(s) => seq!['"'] + spec_colorize(
                spec_trunc(s, c.max_string_length),
                TokenKind::String,
                t,
            ) + seq!['"'],
            ValueView::Array(a) => spec_colorize(("[")@, TokenKind::Punctuation, t) + seq!['\n']
                + spec_arr_lines(a, c, t, depth) + seq!['\n'] + spaces(depth * (c.indent as nat))
                + spec_colorize(("]")@, TokenKind::Punctuation, t),
            ValueView::Object(o) => spec_colorize(("{")@, TokenKind::Punctuation, t) + seq!['\n']
                + spec_obj_lines(o, c, t, depth) + seq!['\n'] + spaces(depth * (c.indent as nat))
                + spec_colorize(("}")@, TokenKind::Punctuation, t),
        }
    }
}

/// Array element lines at one more level of indentation, joined by a
/// comma and a newline.
pub open spec fn spec_arr_lines(s: Seq<ValueView>, c: Config, t: Theme, depth: nat) -> Seq<char>
    decreases s,
{
    if s.len() == 0 {
        Seq::<char>::empty()
    } else if s.len() == 1 {
        spaces((depth + 1) * (c.indent as nat)) + spec_format_plain(s.first(), c, t, depth + 1)
    } else {
        spec_arr_lines(s.drop_last(), c, t, depth) + seq![',', '\n'] + spaces(
            (depth + 1) * (c.indent as nat),
        ) + spec_format_plain(s.last(), c, t, depth + 1)
    }
}

/// Object entry lines: quoted styled key, styled colon, a space, and
/// the entry's value, joined by a comma and a newline.
pub open spec fn spec_obj_lines(
    s: Seq<(Seq<char>, ValueView)>,
    c: Config,
    t: Theme,
    depth: nat,
) -> Seq<char>
    decreases s,
{
    if s.len() == 0 {
        Seq::<char>::empty()
    } else if s.len() == 1 {
        spaces((depth + 1) * (c.indent as nat)) + seq!['"'] + spec_colorize(
            s.first().0,
            TokenKind::Key,
            t,
        ) + seq!['"'] + spec_colorize((":")@, TokenKind::Punctuation, t) + seq![' ']
            + spec_format_plain(s.first().1, c, t, depth + 1)
    } else {
        spec_obj_lines(s.drop_last(), c, t, depth) + seq![',', '\n'] + spaces(
            (depth + 1) * (c.indent as nat),
        ) + seq!['"'] + spec_colorize(s.last().0, TokenKind::Key, t) + seq!['"'] + spec_colorize(
            (":")@,
            TokenKind::Punctuation,
            t,
        ) + seq![' '] + spec_format_plain(s.last().1, c, t, depth + 1)
    }
}

/// Renders a string under the optional display limit.
fn truncate_display(s: &str, max: Option<usize>) -> (r: String)
    ensures
        r@ == spec_trunc(s@, max),
{
    match max {
        Some(m) => {
            let len = s.unicode_len();
            if len > m {
                let keep: usize = if m == 0 {
                    0
                } else {
                    m - 1
                };
                let sub = s.substring_char(0, keep);
                let mut out = String::from_str(sub);
                push_char(&mut out, '…');
                proof {
                    assert(out@ =~= spec_trunc(s@, max));
                }
                out
            } else {
                String::from_str(s)
            }
        },
        None => String::from_str(s),
    }
}

/// Appends the plain rendering of a tree.
#[verifier::loop_isolation(false)]
#[verifier::rlimit(100)]
fn write_plain(out: &mut String, v: &Value, config: &Config, theme: &Theme, depth: usize)
    requires
        (depth as int + height(v@)) * (config.indent as int) <= usize::MAX as int,
        depth as int + height(v@) <= usize::MAX as int,
    ensures
        final(out)@ == old(out)@ + spec_format_plain(v@, *config, *theme, depth as nat),
    decreases *v, 2nat,
{
    if let Some(md) = config.max_depth {
        if depth > md {
            let ph = match v {
                Value::Object(_) => colorize("{…}", TokenKind::Punctuation, theme),
                Value::Array(_) => colorize("[…]", TokenKind::Punctuation, theme),
                _ => colorize("…", TokenKind::String, theme),
            };
            out.append(ph.as_str());
            return ;
        }
    }
    match v {
        Value::Null => {
            let t0 = colorize("null", TokenKind::Null, theme);
            out.append(t0.as_str());
        },
        Value::Bool(b) => {
            let t0 = if *b {
                colorize("true", TokenKind::Bool, theme)
            } else {
                colorize("false", TokenKind::Bool, theme)
            };
            out.append(t0.as_str());
        },
        Value::Number(n) => {
            let t0 = colorize(n.as_str(), TokenKind::Number, theme);
            out.append(t0.as_str());
        },
        Value::String(s) => {
            push_char(out, '"');
            let disp = truncate_display(s.as_str(), config.max_string_length);
            let t0 = colorize(disp.as_str(), TokenKind::String, theme);
            out.append(t0.as_str());
            push_char(out, '"');
            proof {
                assert(out@ =~= old(out)@ + spec_format_plain(
                    v@,
                    *config,
                    *theme,
                    depth as nat,
                ));
            }
        },
        Value::Array(a) => {
            proof {
                lemma_view_list_props(a@);
                assert(height(v@) == 1 + height_list(view_list(a@)));
            }
            write_array(out, a, config, theme, depth);
            proof {
                assert(out@ =~= old(out)@ + spec_format_plain(
                    v@,
                    *config,
                    *theme,
                    depth as nat,
                ));
            }
        },
        Value::Object(o) => {
            proof {
                lemma_view_entries_props(o@);
                assert(height(v@) == 1 + height_entries(view_entries(o@)));
            }
            write_object(out, o, config, theme, depth);
            proof {
                assert(out@ =~= old(out)@ + spec_format_plain(
                    v@,
                    *config,
                    *theme,
                    depth as nat,
                ));
            }
        },
    }
}

/// Appends the multi-line rendering of an array's elements with their
/// brackets.
#[verifier::loop_isolation(false)]
#[verifier::rlimit(50)]
fn write_array(out: &mut String, a: &Vec<Value>, config: &Config, theme: &Theme, depth: usize)
    requires
        (depth as int + 1 + height_list(view_list(a@))) * (config.indent as int)
            <= usize::MAX as int,
        depth as int + 1 + height_list(view_list(a@)) <= usize::MAX as int,
    ensures
        final(out)@ == old(out)@ + spec_colorize(("[")@, TokenKind::Punctuation, *theme)
            + seq!['\n'] + spec_arr_lines(view_list(a@), *config, *theme, depth as nat)
            + seq!['\n'] + spaces((depth as nat) * (config.indent as nat)) + spec_colorize(
            ("]")@,
            TokenKind::Punctuation,
            *theme,
        ),
    decreases *a, 1nat,
{
    let ghost elems = view_list(a@);
    proof {
        lemma_view_list_props(a@);
        lemma_mul_inequality(
            depth as int + 1,
            depth as int + 1 + height_list(elems),
            config.indent as int,
        );
        lemma_mul_inequality(
            depth as int,
            depth as int + 1 + height_list(elems),
            config.indent as int,
        );
    }
    let t0 = colorize("[", TokenKind::Punctuation, theme);
    out.append(t0.as_str());
    push_char(out, '\n');
    let ci = make_spaces((depth + 1) * config.indent);
    let mut i: usize = 0;
    while i < a.len()
        invariant
            i <= a.len(),
            out@ == old(out)@ + spec_colorize(("[")@, TokenKind::Punctuation, *theme)
                + seq!['\n'] + spec_arr_lines(elems.take(i as int), *config, *theme, depth as nat),
        decreases a.len() - i,
    {
        if i > 0 {
            push_char(out, ',');
            push_char(out, '\n');
        }
        out.append(ci.as_str());
        proof {
            lemma_height_list_elem(elems, i as int);
            lemma_mul_inequality(
                depth as int + 1 + height(elems[i as int]),
                depth as int + 1 + height_list(elems),
                config.indent as int,
            );
        }
        write_plain(out, &a[i], config, theme, depth + 1);
        proof {
            assert(elems.take(i + 1).drop_last() =~= elems.take(i as int));
            assert(elems.take(i + 1).last() == elems[i as int]);
            assert(out@ =~= old(out)@ + spec_colorize(("[")@, TokenKind::Punctuation, *theme)
                + seq!['\n'] + spec_arr_lines(elems.take(i + 1), *config, *theme, depth as nat));
        }
        i = i + 1;
    }
    push_char(out, '\n');
    let cur = make_spaces(depth * config.indent);
    out.append(cur.as_str());
    let t1 = colorize("]", TokenKind::Punctuation, theme);
    out.append(t1.as_str());
    proof {
        assert(elems.take(a.len() as int) =~= elems);
        assert(out@ =~= old(out)@ + spec_colorize(("[")@, TokenKind::Punctuation, *theme)
            + seq!['\n'] + spec_arr_lines(elems, *config, *theme, depth as nat) + seq!['\n']
            + spaces((depth as nat) * (config.indent as nat)) + spec_colorize(
            ("]")@,
            TokenKind::Punctuation,
            *theme,
        ));
    }
}

/// Appends the multi-line rendering of an object's entries with their
/// braces.
#[verifier::loop_isolation(false)]
#[verifier::rlimit(50)]
fn write_object(
    out: &mut String,
    o: &Vec<(String, Value)>,
    config: &Config,
    theme: &Theme,
    depth: usize,
)
    requires
        (depth as int + 1 + height_entries(view_entries(o@))) * (config.indent as int)
            <= usize::MAX as int,
        depth as int + 1 + height_entries(view_entries(o@)) <= usize::MAX as int,
    ensures
        final(out)@ == old(out)@ + spec_colorize(("{")@, TokenKind::Punctuation, *theme)
            + seq!['\n'] + spec_obj_lines(view_entries(o@), *config, *theme, depth as nat)
            + seq!['\n'] + spaces((depth as nat) * (config.indent as nat)) + spec_colorize(
            ("}")@,
            TokenKind::Punctuation,
            *theme,
        ),
    decreases *o, 1nat,
{
    let ghost ents = view_entries(o@);
    proof {
        lemma_view_entries_props(o@);
        lemma_mul_inequality(
            depth as int + 1,
            depth as int + 1 + height_entries(ents),
            config.indent as int,
        );
        lemma_mul_inequality(
            depth as int,
            depth as int + 1 + height_entries(ents),
            config.indent as int,
        );
    }
    let t0 = colorize("{", TokenKind::Punctuation, theme);
    out.append(t0.as_str());
    push_char(out, '\n');
    let ci = make_spaces((depth + 1) * config.indent);
    let mut i: usize = 0;
    while i < o.len()
        invariant
            i <= o.len(),
            out@ == old(out)@ + spec_colorize(("{")@, TokenKind::Punctuation, *theme)
                + seq!['\n'] + spec_obj_lines(ents.take(i as int), *config, *theme, depth as nat),
        decreases o.len() - i,
    {
        if i > 0 {
            push_char(out, ',');
            push_char(out, '\n');
        }
        out.append(ci.as_str());
        push_char(out, '"');
        let kt = colorize(o[i].0.as_str(), TokenKind::Key, theme);
        out.append(kt.as_str());
        push_char(out, '"');
        let colon = colorize(":", TokenKind::Punctuation, theme);
        out.append(colon.as_str());
        push_char(out, ' ');
        proof {
            lemma_height_entries_elem(ents, i as int);
            lemma_mul_inequality(
                depth as int + 1 + height(ents[i as int].1),
                depth as int + 1 + height_entries(ents),
                config.indent as int,
            );
        }
        write_plain(out, &o[i].1, config, theme, depth + 1);
        proof {
            assert(ents.take(i + 1).drop_last() =~= ents.take(i as int));
            assert(ents.take(i + 1).last() == ents[i as int]);
            assert(out@ =~= old(out)@ + spec_colorize(("{")@, TokenKind::Punctuation, *theme)
                + seq!['\n'] + spec_obj_lines(ents.take(i + 1), *config, *theme, depth as nat));
        }
        i = i + 1;
    }
    push_char(out, '\n');
    let cur = make_spaces(depth * config.indent);
    out.append(cur.as_str());
    let t1 = colorize("}", TokenKind::Punctuation, theme);
    out.append(t1.as_str());
    proof {
        assert(ents.take(o.len() as int) =~= ents);
        assert(out@ =~= old(out)@ + spec_colorize(("{")@, TokenKind::Punctuation, *theme)
            + seq!['\n'] + spec_obj_lines(ents, *config, *theme, depth as nat) + seq!['\n']
            + spaces((depth as nat) * (config.indent as nat)) + spec_colorize(
            ("}")@,
            TokenKind::Punctuation,
            *theme,
        ));
    }
}

/// What `format_value` returns: the compact encoding in compact mode;
/// otherwise the plain rendering, of the key-sorted tree when
/// `sort_keys` is set.
pub open spec fn spec_format_value(v: ValueView, c: Config, t: Theme, depth: nat) -> Seq<char> {
    if c.compact {
        spec_compact(v)
    } else if c.sort_keys {
        spec_format_plain(spec_sort_value(v), c, t, depth)
    } else {
        spec_format_plain(v, c, t, depth)
    }
}

/// Renders a tree: compact mode yields the minimal single-line
/// encoding and ignores every other display setting; otherwise the
/// tree is rendered line by line with indentation, optional key
/// sorting, depth and string truncation, and the theme's styling.
/// Rendering cannot fail.
pub fn format_value(value: &Value, config: &Config, theme: &Theme, indent_level: usize) -> (r:
    Result<String, JsonfizzError>)
    requires
        !config.compact ==> (indent_level as int + height(value@)) * (config.indent as int)
            <= usize::MAX as int,
        !config.compact ==> indent_level as int + height(value@) <= usize::MAX as int,
    ensures
        r matches Ok(s) && s@ == spec_format_value(value@, *config, *theme, indent_level as nat),
{
    if config.compact {
        return Ok(compact_string(value));
    }
    let mut out = String::new();
    if config.sort_keys {
        let sorted = sort_value(value);
        proof {
            lemma_height_sort_value(value@);
        }
        write_plain(&mut out, &sorted, config, theme, indent_level);
    } else {
        write_plain(&mut out, value, config, theme, indent_level);
    }
    Ok(out)
}

/// A node deeper than the depth limit renders as a placeholder alone —
/// a braced or bracketed ellipsis for a container, so none of its
/// children (not even immediate scalars) appear, and a bare ellipsis
/// for a scalar.
pub proof fn law_depth_truncation(v: ValueView, c: Config, t: Theme, depth: nat)
    requires
        c.max_depth is Some,
        depth > c.max_depth.unwrap(),
    ensures
        spec_format_plain(v, c, t, depth) == (match v {
            ValueView::Object(_) => spec_colorize(("{…}")@, TokenKind::Punctuation, t),
            ValueView::Array(_) => spec_colorize(("[…]")@, TokenKind::Punctuation, t),
            _ => spec_colorize(("…")@, TokenKind::String, t),
        }),
{
}

/// Compact mode is the canonical encoding and nothing else: whatever
/// the indent, sorting, truncation, theme or starting depth, two
/// compact renderings of one tree agree.
pub proof fn law_compact_ignores_display(v: ValueView, c: Config, t: Theme, depth: nat)
    requires
        c.compact,
    ensures
        spec_format_value(v, c, t, depth) == spec_compact(v),
{
}

} // verus!
