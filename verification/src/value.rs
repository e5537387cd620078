//! The generic parsed-document tree: a closed tagged union of null,
//! booleans, numbers (carried as their canonical decimal text), strings,
//! arrays, and objects whose entries keep their insertion order.

use vstd::prelude::*;
use vstd::string::StrSliceExecFns;
use crate::text::hex_digit;
use crate::text::hex_digit_exec;
use crate::text::push_char;

verus! {

/// The mathematical shape of a [`Value`]: the same tree over `Seq`.
#[verifier::ext_equal]
pub enum ValueView {
    Null,
    Bool(bool),
    Number(Seq<char>),
    String(Seq<char>),
    Array(Seq<ValueView>),
    Object(Seq<(Seq<char>, ValueView)>),
}

/// A parsed document. Numbers carry their canonical decimal text, so
/// that rendering is exact; objects keep their entries in insertion
/// order.
#[derive(Debug, PartialEq, Eq)]
pub enum Value {
    Null,
    Bool(bool),
    Number(String),
    String(String),
    Array(Vec<Value>),
    Object(Vec<(String, Value)>),
}

/// The view of one tree node.
pub open spec fn view_value(v: Value) -> ValueView
    decreases v,
{
    match v {
        Value::Null => ValueView::Null,
        Value::Bool(b) => ValueView::Bool(b),
        Value::Number(n) => ValueView::Number(n@),
        Value::String(s) => ValueView::String(s@),
        Value::Array(a) => ValueView::Array(view_list(a@)),
        Value::Object(o) => ValueView::Object(view_entries(o@)),
    }
}

/// The views of a sequence of tree nodes.
pub open spec fn view_list(s: Seq<Value>) -> Seq<ValueView>
    decreases s,
{
    if s.len() == 0 {
        Seq::<ValueView>::empty()
    } else {
        view_list(s.drop_last()).push(view_value(s.last()))
    }
}

/// The views of a sequence of object entries.
pub open spec fn view_entries(s: Seq<(String, Value)>) -> Seq<(Seq<char>, ValueView)>
    decreases s,
{
    if s.len() == 0 {
        Seq::<(Seq<char>, ValueView)>::empty()
    } else {
        view_entries(s.drop_last()).push((s.last().0@, view_value(s.last().1)))
    }
}

impl View for Value {
    type V = ValueView;

    open spec fn view(&self) -> ValueView {
        view_value(*self)
    }
}

/// `view_list` maps the view over the sequence, element by element.
pub proof fn lemma_view_list_props(s: Seq<Value>)
    ensures
        view_list(s).len() == s.len(),
        forall|i: int| 0 <= i < s.len() ==> view_list(s)[i] == view_value(s[i]),
    decreases s.len(),
{
    if s.len() > 0 {
        lemma_view_list_props(s.drop_last());
    }
}

/// `view_entries` maps the view over the entries, entry by entry.
pub proof fn lemma_view_entries_props(s: Seq<(String, Value)>)
    ensures
        view_entries(s).len() == s.len(),
        forall|i: int|
            0 <= i < s.len() ==> view_entries(s)[i] == (s[i].0@, view_value(s[i].1)),
    decreases s.len(),
{
    if s.len() > 0 {
        lemma_view_entries_props(s.drop_last());
    }
}

/// The nesting height of a tree: scalars sit at 0, a container is one
/// above its deepest child.
pub open spec fn height(v: ValueView) -> nat
    decreases v,
{
    match v {
        ValueView::Array(a) => 1 + height_list(a),
        ValueView::Object(o) => 1 + height_entries(o),
        _ => 0,
    }
}

/// The deepest height among a sequence of trees.
pub open spec fn height_list(s: Seq<ValueView>) -> nat
    decreases s,
{
    if s.len() == 0 {
        0
    } else if height(s.first()) >= height_list(s.drop_first()) {
        height(s.first())
    } else {
        height_list(s.drop_first())
    }
}

/// The deepest height among the values of a sequence of entries.
pub open spec fn height_entries(s: Seq<(Seq<char>, ValueView)>) -> nat
    decreases s,
{
    if s.len() == 0 {
        0
    } else if height(s.first().1) >= height_entries(s.drop_first()) {
        height(s.first().1)
    } else {
        height_entries(s.drop_first())
    }
}

/// Deep-copies a tree; the copy has the very same view, so the caller
/// owns an independent but indistinguishable value.
#[verifier::loop_isolation(false)]
pub fn clone_value(v: &Value) -> (r: Value)
    ensures
        r@ == v@,
    decreases *v,
{
    match v {
        Value::Null => Value::Null,
        Value::Bool(b) => Value::Bool(*b),
        Value::Number(n) => Value::Number(n.clone()),
        Value::String(s) => Value::String(s.clone()),
        Value::Array(a) => {
            let mut out: Vec<Value> = Vec::new();
            let mut i: usize = 0;
            while i < a.len()
                invariant
                    i <= a.len(),
                    out@.len() == i,
                    forall|j: int| 0 <= j < i ==> view_value(out@[j]) == view_value(a@[j]),
                decreases a.len() - i,
            {
                let c = clone_value(&a[i]);
                out.push(c);
                i = i + 1;
            }
            proof {
                lemma_view_list_props(out@);
                lemma_view_list_props(a@);
                assert(view_list(out@) =~= view_list(a@));
            }
            Value::Array(out)
        },
        Value::Object(o) => {
            let mut out: Vec<(String, Value)> = Vec::new();
            let mut i: usize = 0;
            while i < o.len()
                invariant
                    i <= o.len(),
                    out@.len() == i,
                    forall|j: int|
                        0 <= j < i ==> out@[j].0@ == o@[j].0@ && view_value(out@[j].1)
                            == view_value(o@[j].1),
                decreases o.len() - i,
            {
                let k = o[i].0.clone();
                let c = clone_value(&o[i].1);
                out.push((k, c));
                i = i + 1;
            }
            proof {
                lemma_view_entries_props(out@);
                lemma_view_entries_props(o@);
                assert(view_entries(out@) =~= view_entries(o@));
            }
            Value::Object(out)
        },
    }
}

/// How one character reads inside a double-quoted compact string: the
/// quote and the backslash are escaped, control characters take their
/// short escapes or a `\u00` hexadecimal escape, everything else stands
/// for itself.
pub open spec fn esc_char(c: char) -> Seq<char> {
    if c == '"' {
        seq!['\\', '"']
    } else if c == '\\' {
        seq!['\\', '\\']
    } else if c == '\u{8}' {
        seq!['\\', 'b']
    } else if c == '\t' {
        seq!['\\', 't']
    } else if c == '\n' {
        seq!['\\', 'n']
    } else if c == '\u{c}' {
        seq!['\\', 'f']
    } else if c == '\r' {
        seq!['\\', 'r']
    } else if (c as u32) < 32 {
        seq!['\\', 'u', '0', '0', hex_digit((c as u32 / 16) as nat), hex_digit(
            (c as u32 % 16) as nat,
        )]
    } else {
        seq![c]
    }
}

/// A whole string with each character escaped.
pub open spec fn esc_seq(s: Seq<char>) -> Seq<char>
    decreases s.len(),
{
    if s.len() == 0 {
        Seq::<char>::empty()
    } else {
        esc_seq(s.drop_last()) + esc_char(s.last())
    }
}

/// The minimal single-line encoding of a tree: no inserted whitespace,
/// strings quoted and escaped, object entries in their stored order.
pub open spec fn spec_compact(v: ValueView) -> Seq<char>
    decreases v,
{
    match v {
        ValueView::Null => ("null")@,
        ValueView::Bool(b) => if b {
            ("true")@
        } else {
            ("false")@
        },
        ValueView::Number(n) => n,
        ValueView::String(s) => seq!['"'] + esc_seq(s) + seq!['"'],
        ValueView::Array(a) => seq!['['] + spec_compact_list(a) + seq![']'],
        ValueView::Object(o) => seq!['{'] + spec_compact_entries(o) + seq!['}'],
    }
}

/// Array elements of a compact encoding, joined by commas.
pub open spec fn spec_compact_list(s: Seq<ValueView>) -> Seq<char>
    decreases s,
{
    if s.len() == 0 {
        Seq::<char>::empty()
    } else if s.len() == 1 {
        spec_compact(s.first())
    } else {
        spec_compact_list(s.drop_last()) + seq![','] + spec_compact(s.last())
    }
}

/// One object entry of a compact encoding: quoted key, colon, value.
pub open spec fn spec_compact_entry(e: (Seq<char>, ValueView)) -> Seq<char>
    decreases e,
{
    seq!['"'] + esc_seq(e.0) + seq!['"', ':'] + spec_compact(e.1)
}

/// Object entries of a compact encoding, joined by commas.
pub open spec fn spec_compact_entries(s: Seq<(Seq<char>, ValueView)>) -> Seq<char>
    decreases s,
{
    if s.len() == 0 {
        Seq::<char>::empty()
    } else if s.len() == 1 {
        spec_compact_entry(s.first())
    } else {
        spec_compact_entries(s.drop_last()) + seq![','] + spec_compact_entry(s.last())
    }
}

/// Appends one escaped character.
fn push_escaped_char(out: &mut String, c: char)
    ensures
        final(out)@ == old(out)@ + esc_char(c),
{
    if c == '"' {
        push_char(out, '\\');
        push_char(out, '"');
    } else if c == '\\' {
        push_char(out, '\\');
        push_char(out, '\\');
    } else if c == '\u{8}' {
        push_char(out, '\\');
        push_char(out, 'b');
    } else if c == '\t' {
        push_char(out, '\\');
        push_char(out, 't');
    } else if c == '\n' {
        push_char(out, '\\');
        push_char(out, 'n');
    } else if c == '\u{c}' {
        push_char(out, '\\');
        push_char(out, 'f');
    } else if c == '\r' {
        push_char(out, '\\');
        push_char(out, 'r');
    } else if (c as u32) < 32 {
        push_char(out, '\\');
        push_char(out, 'u');
        push_char(out, '0');
        push_char(out, '0');
        push_char(out, hex_digit_exec((c as u32) / 16));
        push_char(out, hex_digit_exec((c as u32) % 16));
    } else {
        push_char(out, c);
    }
    proof {
        assert(out@ =~= old(out)@ + esc_char(c));
    }
}

/// Appends a string with every character escaped.
#[verifier::loop_isolation(false)]
fn push_escaped(out: &mut String, s: &str)
    ensures
        final(out)@ == old(out)@ + esc_seq(s@),
{
    let len = s.unicode_len();
    let mut i: usize = 0;
    while i < len
        invariant
            i <= len,
            out@ == old(out)@ + esc_seq(s@.take(i as int)),
        decreases len - i,
    {
        let c = s.get_char(i);
        push_escaped_char(out, c);
        proof {
            assert(s@.take(i + 1).drop_last() =~= s@.take(i as int));
            assert(s@.take(i + 1).last() == s@[i as int]);
        }
        i = i + 1;
    }
    proof {
        assert(s@.take(len as int) =~= s@);
    }
}

/// Appends the compact encoding of a tree.
#[verifier::loop_isolation(false)]
#[verifier::rlimit(50)]
fn write_compact(out: &mut String, v: &Value)
    ensures
        final(out)@ == old(out)@ + spec_compact(v@),
    decreases *v,
{
    match v {
        Value::Null => {
            push_char(out, 'n');
            push_char(out, 'u');
            push_char(out, 'l');
            push_char(out, 'l');
            proof {
                reveal_strlit("null");
                assert(out@ =~= old(out)@ + ("null")@);
            }
        },
        Value::Bool(b) => {
            if *b {
                push_char(out, 't');
                push_char(out, 'r');
                push_char(out, 'u');
                push_char(out, 'e');
                proof {
                    reveal_strlit("true");
                    assert(out@ =~= old(out)@ + ("true")@);
                }
            } else {
                push_char(out, 'f');
                push_char(out, 'a');
                push_char(out, 'l');
                push_char(out, 's');
                push_char(out, 'e');
                proof {
                    reveal_strlit("false");
                    assert(out@ =~= old(out)@ + ("false")@);
                }
            }
        },
        Value::Number(n) => {
            out.append(n.as_str());
        },
        Value::String(s) => {
            push_char(out, '"');
            push_escaped(out, s.as_str());
            push_char(out, '"');
            proof {
                assert(out@ =~= old(out)@ + spec_compact(v@));
            }
        },
        Value::Array(a) => {
            let ghost elems = view_list(a@);
            proof {
                lemma_view_list_props(a@);
            }
            push_char(out, '[');
            let mut i: usize = 0;
            while i < a.len()
                invariant
                    i <= a.len(),
                    out@ == old(out)@ + seq!['['] + spec_compact_list(elems.take(i as int)),
                decreases a.len() - i,
            {
                if i > 0 {
                    push_char(out, ',');
                }
                write_compact(out, &a[i]);
                proof {
                    assert(elems.take(i + 1).drop_last() =~= elems.take(i as int));
                    assert(elems.take(i + 1).last() == elems[i as int]);
                    if i == 0 {
                        assert(spec_compact_list(elems.take(1)) == spec_compact(elems[0]));
                    }
                    assert(out@ =~= old(out)@ + seq!['['] + spec_compact_list(elems.take(i + 1)));
                }
                i = i + 1;
            }
            push_char(out, ']');
            proof {
                assert(elems.take(a.len() as int) =~= elems);
                assert(out@ =~= old(out)@ + spec_compact(v@));
            }
        },
        Value::Object(o) => {
            let ghost ents = view_entries(o@);
            proof {
                lemma_view_entries_props(o@);
            }
            push_char(out, '{');
            let mut i: usize = 0;
            while i < o.len()
                invariant
                    i <= o.len(),
                    out@ == old(out)@ + seq!['{'] + spec_compact_entries(ents.take(i as int)),
                decreases o.len() - i,
            {
                if i > 0 {
                    push_char(out, ',');
                }
                push_char(out, '"');
                push_escaped(out, o[i].0.as_str());
                push_char(out, '"');
                push_char(out, ':');
                write_compact(out, &o[i].1);
                proof {
                    assert(ents.take(i + 1).drop_last() =~= ents.take(i as int));
                    assert(ents.take(i + 1).last() == ents[i as int]);
                    assert(ents[i as int].0 == o@[i as int].0@);
                    assert(ents[i as int].1 == view_value(o@[i as int].1));
                    assert(spec_compact_entry(ents[i as int]) =~= seq!['"'] + esc_seq(
                        o@[i as int].0@,
                    ) + seq!['"', ':'] + spec_compact(view_value(o@[i as int].1)));
                    if i == 0 {
                        assert(spec_compact_entries(ents.take(1)) == spec_compact_entry(ents[0]));
                    }
                    assert(out@ =~= old(out)@ + seq!['{'] + spec_compact_entries(
                        ents.take(i + 1),
                    ));
                }
                i = i + 1;
            }
            push_char(out, '}');
            proof {
                assert(ents.take(o.len() as int) =~= ents);
                assert(out@ =~= old(out)@ + spec_compact(v@));
            }
        },
    }
}

/// The minimal single-line encoding of a tree.
pub fn compact_string(v: &Value) -> (r: String)
    ensures
        r@ == spec_compact(v@),
{
    let mut out = String::new();
    write_compact(&mut out, v);
    out
}

} // verus!
