//! Output selection: JSON rendering through the formatter, CSV export
//! of an array of objects, and delegation to the YAML and TOML
//! serializers, which receive the value through its canonical compact
//! encoding.

use vstd::prelude::*;
use vstd::string::StrSliceExecFns;
use vstd::string::StringExecFns;
use crate::config::Config;
use crate::error::JsonfizzError;
use crate::formatter::format_value;
use crate::formatter::spec_format_value;
use crate::path::find_key;
use crate::path::has_key;
use crate::path::lookup;
use crate::text::lex_leq;
use crate::text::str_eq;
use crate::text::str_lex_leq;
use crate::theme::Theme;
use crate::value::compact_string;
use crate::value::height;
use crate::value::lemma_view_list_props;
use crate::value::spec_compact;
use crate::value::view_entries;
use crate::value::view_list;
use crate::value::Value;
use crate::value::ValueView;

verus! {

/// What the YAML serializer emits for a document given by its compact
/// encoding: a function of the text alone.
pub uninterp spec fn yaml_of(s: Seq<char>) -> Seq<char>;

/// Whether the YAML serializer accepts a document given by its compact
/// encoding: like its output, a function of the text alone.
pub uninterp spec fn yaml_ok_of(s: Seq<char>) -> bool;

/// What the TOML serializer emits for a document given by its compact
/// encoding: a function of the text alone.
pub uninterp spec fn toml_of(s: Seq<char>) -> Seq<char>;

/// Whether the TOML serializer accepts a document given by its compact
/// encoding; it refuses documents with no TOML form, such as a null or
/// a non-table top level — like its output, a function of the text
/// alone.
pub uninterp spec fn toml_ok_of(s: Seq<char>) -> bool;

/// What the CSV encoder emits for one record: each field quoted as its
/// content requires, fields joined by commas, and a final newline; a
/// function of the fields alone.
pub uninterp spec fn csv_line_of(fields: Seq<Seq<char>>) -> Seq<char>;

/// The views of a sequence of strings.
pub open spec fn view_strings(s: Seq<String>) -> Seq<Seq<char>> {
    s.map_values(|x: String| x@)
}

/// Relies on `serde_json::from_str` and `serde_yaml::to_string`: the
/// text is parsed back into a document tree and re-serialized as YAML,
/// a deterministic function of the text (key order is preserved).
#[verifier::external_body]
fn yaml_from_json(s: &str) -> (r: Result<String, String>)
    ensures
        r is Ok <==> yaml_ok_of(s@),
        r matches Ok(t) ==> t@ == yaml_of(s@),
{
    match serde_json::from_str::<serde_json::Value>(s) {
        Ok(v) => serde_yaml::to_string(&v).map_err(|e| e.to_string()),
        Err(e) => Err(e.to_string()),
    }
}

/// Relies on `serde_json::from_str` and `toml::to_string`: the text is
/// parsed back into a document tree and re-serialized as TOML, a
/// deterministic function of the text (key order is preserved).
#[verifier::external_body]
fn toml_from_json(s: &str) -> (r: Result<String, String>)
    ensures
        r is Ok <==> toml_ok_of(s@),
        r matches Ok(t) ==> t@ == toml_of(s@),
{
    match serde_json::from_str::<serde_json::Value>(s) {
        Ok(v) => toml::to_string(&v).map_err(|e| e.to_string()),
        Err(e) => Err(e.to_string()),
    }
}

/// Relies on `csv::Writer`: writes one record to an in-memory buffer
/// with the default quoting rules and the newline terminator, a
/// deterministic function of the fields. The call cannot fail: a fresh
/// writer sees a single record, so the record-length check never
/// fires; writing and flushing into a byte vector cannot fail; and the
/// encoding of UTF-8 fields and ASCII separators decodes as UTF-8.
#[verifier::external_body]
fn csv_line(fields: &Vec<String>) -> (r: String)
    ensures
        r@ == csv_line_of(view_strings(fields@)),
{
    let mut w = csv::Writer::from_writer(Vec::new());
    w.write_record(fields.iter()).expect("writing one record to memory cannot fail");
    let buf = w.into_inner().expect("flushing to memory cannot fail");
    String::from_utf8(buf).expect("encoded UTF-8 fields decode as UTF-8")
}

/// Inserts a key into a sorted key list, unless it is already there.
pub open spec fn insert_key(k: Seq<char>, ks: Seq<Seq<char>>) -> Seq<Seq<char>>
    decreases ks.len(),
{
    if ks.len() == 0 {
        seq![k]
    } else if k == ks.first() {
        ks
    } else if lex_leq(k, ks.first()) {
        seq![k] + ks
    } else {
        seq![ks.first()] + insert_key(k, ks.drop_first())
    }
}

/// Adds every key of an entry sequence to a sorted key list, in entry
/// order.
pub open spec fn add_obj_keys(ents: Seq<(Seq<char>, ValueView)>, ks: Seq<Seq<char>>) -> Seq<
    Seq<char>,
>
    decreases ents.len(),
{
    if ents.len() == 0 {
        ks
    } else {
        add_obj_keys(ents.drop_first(), insert_key(ents.first().0, ks))
    }
}

/// The sorted union of the keys of every object among the elements.
pub open spec fn collect_keys(elems: Seq<ValueView>, ks: Seq<Seq<char>>) -> Seq<Seq<char>>
    decreases elems.len(),
{
    if elems.len() == 0 {
        ks
    } else {
        collect_keys(
            elems.drop_first(),
            match elems.first() {
                ValueView::Object(o) => add_obj_keys(o, ks),
                _ => ks,
            },
        )
    }
}

/// How one value reads in a CSV cell: strings bare, numbers and
/// booleans as their text, null empty, containers as their compact
/// encoding.
pub open spec fn cell_value(v: ValueView) -> Seq<char> {
    match v {
        ValueView::String(s) => s,
        ValueView::Number(n) => n,
        ValueView::Bool(b) => if b {
            ("true")@
        } else {
            ("false")@
        },
        ValueView::Null => Seq::<char>::empty(),
        _ => spec_compact(v),
    }
}

/// The cell an object contributes under a key: its value there, or
/// empty when the key is missing.
pub open spec fn cell_of(ents: Seq<(Seq<char>, ValueView)>, k: Seq<char>) -> Seq<char> {
    if has_key(ents, k) {
        cell_value(lookup(ents, k))
    } else {
        Seq::<char>::empty()
    }
}

/// The row an object contributes: one cell per key, in key order.
pub open spec fn row_of(ents: Seq<(Seq<char>, ValueView)>, ks: Seq<Seq<char>>) -> Seq<Seq<char>> {
    ks.map_values(|k: Seq<char>| cell_of(ents, k))
}

/// The data rows: one encoded line per object element, in element
/// order; other elements contribute nothing.
pub open spec fn rows_text(elems: Seq<ValueView>, ks: Seq<Seq<char>>) -> Seq<char>
    decreases elems.len(),
{
    if elems.len() == 0 {
        Seq::<char>::empty()
    } else {
        rows_text(elems.drop_last(), ks) + (match elems.last() {
            ValueView::Object(o) => csv_line_of(row_of(o, ks)),
            _ => Seq::<char>::empty(),
        })
    }
}

/// The message when a value has no tabular form.
pub open spec fn spec_csv_shape_msg() -> Seq<char> {
    ("CSV output requires a JSON array of objects")@
}

/// Inserts a key into a sorted key vector, skipping duplicates.
fn insert_key_vec(k: String, ks: Vec<String>) -> (r: Vec<String>)
    ensures
        view_strings(r@) == insert_key(k@, view_strings(ks@)),
    decreases ks@.len(),
{
    let ghost sk = view_strings(ks@);
    let mut ks = ks;
    if ks.len() == 0 {
        ks.push(k);
        proof {
            assert(view_strings(ks@) =~= insert_key(k@, sk));
        }
        ks
    } else if str_eq(k.as_str(), ks[0].as_str()) {
        ks
    } else if str_lex_leq(k.as_str(), ks[0].as_str()) {
        ks.insert(0, k);
        proof {
            assert(view_strings(ks@) =~= seq![k@] + sk);
        }
        ks
    } else {
        let first = ks.remove(0);
        proof {
            assert(view_strings(ks@) =~= sk.drop_first());
        }
        let mut r = insert_key_vec(k, ks);
        let ghost t = view_strings(r@);
        r.insert(0, first);
        proof {
            assert(view_strings(r@) =~= seq![sk.first()] + t);
        }
        r
    }
}

/// Converts an array of objects into CSV text: the header row holds
/// the sorted union of the objects' keys, and each object yields one
/// row with its value (or an empty cell) under every key. An empty
/// array yields empty text; every array converts successfully, and
/// anything but an array is an error.
#[verifier::loop_isolation(false)]
#[verifier::rlimit(50)]
pub fn convert_to_csv(value: &Value) -> (r: Result<String, JsonfizzError>)
    ensures
        !(value@ is Array) ==> (r matches Err(e) && e matches JsonfizzError::Data(m) && m@
            == spec_csv_shape_msg()),
        value@ matches ValueView::Array(elems) ==> (r matches Ok(s) && s@ == (if elems.len()
            == 0 {
            Seq::<char>::empty()
        } else {
            csv_line_of(collect_keys(elems, Seq::<Seq<char>>::empty())) + rows_text(
                elems,
                collect_keys(elems, Seq::<Seq<char>>::empty()),
            )
        })),
{
    match value {
        Value::Array(arr) => {
            let ghost elems = view_list(arr@);
            proof {
                lemma_view_list_props(arr@);
            }
            if arr.len() == 0 {
                return Ok(String::new());
            }
            let mut keys: Vec<String> = Vec::new();
            let mut i: usize = 0;
            while i < arr.len()
                invariant
                    i <= arr.len(),
                    view_strings(keys@) == collect_keys(
                        elems.take(i as int),
                        Seq::<Seq<char>>::empty(),
                    ),
                decreases arr.len() - i,
            {
                match &arr[i] {
                    Value::Object(o) => {
                        let ghost ents = view_entries(o@);
                        proof {
                            crate::value::lemma_view_entries_props(o@);
                        }
                        let mut j: usize = 0;
                        while j < o.len()
                            invariant
                                j <= o.len(),
                                view_strings(keys@) == add_obj_keys(
                                    ents.take(j as int),
                                    collect_keys(elems.take(i as int), Seq::<Seq<char>>::empty()),
                                ),
                            decreases o.len() - j,
                        {
                            let k = o[j].0.clone();
                            keys = insert_key_vec(k, keys);
                            proof {
                                lemma_add_obj_keys_step(
                                    ents,
                                    j as int,
                                    collect_keys(elems.take(i as int), Seq::<Seq<char>>::empty()),
                                );
                            }
                            j = j + 1;
                        }
                        proof {
                            assert(ents.take(o@.len() as int) =~= ents);
                        }
                    },
                    _ => {},
                }
                proof {
                    lemma_collect_keys_step(elems, i as int, Seq::<Seq<char>>::empty());
                }
                i = i + 1;
            }
            proof {
                assert(elems.take(arr@.len() as int) =~= elems);
            }
            let ghost ks = collect_keys(elems, Seq::<Seq<char>>::empty());
            let mut out = csv_line(&keys);
            let mut i: usize = 0;
            while i < arr.len()
                invariant
                    i <= arr.len(),
                    out@ == csv_line_of(ks) + rows_text(elems.take(i as int), ks),
                decreases arr.len() - i,
            {
                match &arr[i] {
                    Value::Object(o) => {
                        let ghost ents = view_entries(o@);
                        proof {
                            crate::value::lemma_view_entries_props(o@);
                        }
                        let mut row: Vec<String> = Vec::new();
                        let mut j: usize = 0;
                        while j < keys.len()
                            invariant
                                j <= keys.len(),
                                row@.len() == j,
                                forall|m: int|
                                    0 <= m < j ==> row@[m]@ == cell_of(ents, keys@[m]@),
                            decreases keys.len() - j,
                        {
                            let cell = match find_key(o, keys[j].as_str()) {
                                Some(pos) => {
                                    match &o[pos].1 {
                                        Value::String(s) => s.clone(),
                                        Value::Number(n) => n.clone(),
                                        Value::Bool(b) => {
                                            if *b {
                                                String::from_str("true")
                                            } else {
                                                String::from_str("false")
                                            }
                                        },
                                        Value::Null => String::new(),
                                        other => compact_string(other),
                                    }
                                },
                                None => String::new(),
                            };
                            row.push(cell);
                            j = j + 1;
                        }
                        proof {
                            assert(view_strings(row@) =~= row_of(ents, view_strings(keys@)));
                            assert(view_strings(keys@) =~= ks);
                        }
                        let line = csv_line(&row);
                        out.append(line.as_str());
                    },
                    _ => {},
                }
                proof {
                    assert(elems.take(i + 1).drop_last() =~= elems.take(i as int));
                    assert(elems.take(i + 1).last() == elems[i as int]);
                }
                i = i + 1;
            }
            proof {
                assert(elems.take(arr@.len() as int) =~= elems);
            }
            Ok(out)
        },
        _ => {
            let msg = String::from_str("CSV output requires a JSON array of objects");
            Err(JsonfizzError::Data(msg))
        },
    }
}

/// The message for an output format outside the supported set.
pub open spec fn spec_unsupported_format_msg(f: Seq<char>) -> Seq<char> {
    "Unsupported format: "@ + f + ". Supported: json, yaml, toml, csv"@
}

/// Renders a tree in the configured output format. JSON goes through
/// the formatter and cannot fail; YAML and TOML hand the value,
/// through its compact encoding, to the matching serializer, and
/// succeed exactly when the serializer accepts the document; CSV
/// tabulates an array of objects and succeeds for every array; any
/// other format name is a configuration error naming it.
pub fn format_output(value: &Value, config: &Config, theme: &Theme) -> (r: Result<
    String,
    JsonfizzError,
>)
    requires
        config.format@ == ("json")@ && !config.compact ==> height(value@) * (config.indent as int)
            <= usize::MAX as int && height(value@) <= usize::MAX as int,
    ensures
        config.format@ == ("json")@ ==> (r matches Ok(s) && s@ == spec_format_value(
            value@,
            *config,
            *theme,
            0,
        )),
        config.format@ == ("yaml")@ ==> ((r is Ok <==> yaml_ok_of(spec_compact(value@))) && (
        r matches Ok(s) ==> s@ == yaml_of(spec_compact(value@))) && (r is Err ==> r matches Err(
            JsonfizzError::Data(_),
        ))),
        config.format@ == ("toml")@ ==> ((r is Ok <==> toml_ok_of(spec_compact(value@))) && (
        r matches Ok(s) ==> s@ == toml_of(spec_compact(value@))) && (r is Err ==> r matches Err(
            JsonfizzError::Data(_),
        ))),
        config.format@ == ("csv")@ ==> ((!(value@ is Array) ==> (r matches Err(e) && e matches
            JsonfizzError::Data(m) && m@ == spec_csv_shape_msg())) && (value@ matches
            ValueView::Array(elems) ==> (r matches Ok(s) && s@ == (if elems.len() == 0 {
            Seq::<char>::empty()
        } else {
            csv_line_of(collect_keys(elems, Seq::<Seq<char>>::empty())) + rows_text(
                elems,
                collect_keys(elems, Seq::<Seq<char>>::empty()),
            )
        })))),
        config.format@ != ("json")@ && config.format@ != ("yaml")@ && config.format@ != ("toml")@
            && config.format@ != ("csv")@ ==> (r matches Err(e) && e matches JsonfizzError::Config(
            m,
        ) && m@ == spec_unsupported_format_msg(config.format@)),
{
    proof {
        reveal_strlit("json");
        reveal_strlit("yaml");
        reveal_strlit("toml");
        reveal_strlit("csv");
        assert(("json")@[0] == 'j' && ("yaml")@[0] == 'y' && ("toml")@[0] == 't' && ("csv")@[0]
            == 'c');
        assert(("json")@ != ("yaml")@ && ("json")@ != ("toml")@ && ("json")@ != ("csv")@);
        assert(("yaml")@ != ("toml")@ && ("yaml")@ != ("csv")@);
        assert(("toml")@ != ("csv")@);
    }
    let f = config.format.as_str();
    if str_eq(f, "json") {
        format_value(value, config, theme, 0)
    } else if str_eq(f, "yaml") {
        let encoded = compact_string(value);
        match yaml_from_json(encoded.as_str()) {
            Ok(s) => Ok(s),
            Err(m) => {
                let mut msg = String::from_str("YAML serialization error: ");
                msg.append(m.as_str());
                Err(JsonfizzError::Data(msg))
            },
        }
    } else if str_eq(f, "toml") {
        let encoded = compact_string(value);
        match toml_from_json(encoded.as_str()) {
            Ok(s) => Ok(s),
            Err(m) => {
                let mut msg = String::from_str("TOML serialization error: ");
                msg.append(m.as_str());
                Err(JsonfizzError::Data(msg))
            },
        }
    } else if str_eq(f, "csv") {
        convert_to_csv(value)
    } else {
        let mut msg = String::from_str("Unsupported format: ");
        msg.append(f);
        msg.append(". Supported: json, yaml, toml, csv");
        Err(JsonfizzError::Config(msg))
    }
}

proof fn lemma_add_obj_keys_step(ents: Seq<(Seq<char>, ValueView)>, j: int, ks: Seq<Seq<char>>)
    requires
        0 <= j < ents.len(),
    ensures
        add_obj_keys(ents.take(j + 1), ks) == insert_key(ents[j].0, add_obj_keys(ents.take(j), ks)),
    decreases j,
{
    if j == 0 {
        assert(ents.take(1).first() == ents[0]);
        assert(ents.take(1).drop_first() =~= Seq::<(Seq<char>, ValueView)>::empty());
        assert(ents.take(0) =~= Seq::<(Seq<char>, ValueView)>::empty());
        assert(add_obj_keys(ents.take(1), ks) == add_obj_keys(
            ents.take(1).drop_first(),
            insert_key(ents[0].0, ks),
        ));
        assert(add_obj_keys(ents.take(0), ks) == ks);
    } else {
        let d = ents.drop_first();
        let ks2 = insert_key(ents[0].0, ks);
        assert(ents.take(j + 1).first() == ents[0]);
        assert(ents.take(j + 1).drop_first() =~= d.take(j));
        assert(ents.take(j).first() == ents[0]);
        assert(ents.take(j).drop_first() =~= d.take(j - 1));
        assert(add_obj_keys(ents.take(j + 1), ks) == add_obj_keys(d.take(j), ks2));
        assert(add_obj_keys(ents.take(j), ks) == add_obj_keys(d.take(j - 1), ks2));
        lemma_add_obj_keys_step(d, j - 1, ks2);
        assert(d[j - 1] == ents[j]);
    }
}

proof fn lemma_collect_keys_step(elems: Seq<ValueView>, i: int, ks: Seq<Seq<char>>)
    requires
        0 <= i < elems.len(),
    ensures
        collect_keys(elems.take(i + 1), ks) == (match elems[i] {
            ValueView::Object(o) => add_obj_keys(o, collect_keys(elems.take(i), ks)),
            _ => collect_keys(elems.take(i), ks),
        }),
    decreases i,
{
    if i == 0 {
        assert(elems.take(1).first() == elems[0]);
        assert(elems.take(1).drop_first() =~= Seq::<ValueView>::empty());
        assert(elems.take(0) =~= Seq::<ValueView>::empty());
        assert(collect_keys(elems.take(1), ks) == collect_keys(
            elems.take(1).drop_first(),
            match elems[0] {
                ValueView::Object(o) => add_obj_keys(o, ks),
                _ => ks,
            },
        ));
        assert(collect_keys(elems.take(0), ks) == ks);
    } else {
        let d = elems.drop_first();
        let ks2 = match elems[0] {
            ValueView::Object(o) => add_obj_keys(o, ks),
            _ => ks,
        };
        assert(elems.take(i + 1).first() == elems[0]);
        assert(elems.take(i + 1).drop_first() =~= d.take(i));
        assert(elems.take(i).first() == elems[0]);
        assert(elems.take(i).drop_first() =~= d.take(i - 1));
        assert(collect_keys(elems.take(i + 1), ks) == collect_keys(d.take(i), ks2));
        assert(collect_keys(elems.take(i), ks) == collect_keys(d.take(i - 1), ks2));
        lemma_collect_keys_step(d, i - 1, ks2);
        assert(d[i - 1] == elems[i]);
    }
}

} // verus!
