//! The serialized form of a compiled manifest: a JSON object with the
//! fields `MAP`, `ENV`, `ENV_PWD_IS_HOST_CWD`,
//! `ENV_EXE_NAME_IS_HOST_EXE_NAME`, `FROM`, `LINK`, `NET`, `ARGV` and
//! `ENTRYPOINT`, in this order. `ENTRYPOINT` holds the function to call and
//! `ARGV` the arguments it is called with. A field that would hold an empty
//! list, an empty string or `false` is left out, and no name stands twice.
//!
//! The object keeps its fields in the order in which they were inserted:
//! this crate builds `serde_json` with its `preserve_order` feature, and
//! what is said here of an insertion holds of that build.
//!
//! Which fields the object holds is decided and proved here. The object is
//! built and written out by `serde_json`; the text that it writes for
//! given fields is not proved but named, by [`rendered`].

use vstd::prelude::*;
use vstd::string::*;
use crate::manifest::{Manifest, ManifestView};
use crate::mapping::written;

verus! {

/// The JSON object of `serde_json`, carried through as an opaque value.
#[verifier::external_type_specification]
#[verifier::external_body]
#[verifier::reject_recursive_types(K)]
#[verifier::reject_recursive_types(V)]
pub struct ExJsonMap<K, V>(serde_json::Map<K, V>);

/// The JSON value of `serde_json`, carried through as an opaque value.
#[verifier::external_type_specification]
#[verifier::external_body]
pub struct ExJsonValue(serde_json::Value);

/// The error of `serde_json`, carried through as an opaque value.
#[verifier::external_type_specification]
#[verifier::external_body]
pub struct ExJsonError(serde_json::Error);

/// What a field of the record holds.
pub enum FieldValue {
    Text(Seq<char>),
    List(Seq<Seq<char>>),
    Flag(bool),
}

/// The fields of a record: names with their values, in order.
pub type Fields = Seq<(Seq<char>, FieldValue)>;

/// The fields that a JSON object holds, in the order in which it writes
/// them.
pub uninterp spec fn fields_in(object: serde_json::Map<String, serde_json::Value>) -> Fields;

/// The text that `serde_json::to_string_pretty` writes for an object with
/// the fields `fields`, or `None` where it reports an error.
pub uninterp spec fn rendered(fields: Fields) -> Option<Seq<char>>;

/// Whether `j` is the place of the field `name` in `fields`.
pub open spec fn named_at(fields: Fields, name: Seq<char>, j: int) -> bool {
    0 <= j < fields.len() && fields[j].0 == name
}

/// `fields` after `name` was given `value`: a field of that name keeps its
/// place and takes the value, else the field comes last.
pub open spec fn put(fields: Fields, name: Seq<char>, value: FieldValue) -> Fields {
    if exists|j: int| named_at(fields, name, j) {
        fields.update(choose|j: int| named_at(fields, name, j), (name, value))
    } else {
        fields.push((name, value))
    }
}

/// Whether `fields` has no field named `name`.
pub open spec fn lacks(fields: Fields, name: Seq<char>) -> bool {
    forall|j: int| !named_at(fields, name, j)
}

/// Whether every field of `fields` bears one of the first `count` of
/// `names`.
pub open spec fn named_among(fields: Fields, names: Seq<Seq<char>>, count: int) -> bool {
    forall|j: int|
        0 <= j < fields.len() ==> exists|k: int|
            0 <= k < count && k < names.len() && (#[trigger] fields[j]).0 == #[trigger] names[k]
}

/// The names of the fields, in the order in which a record holds them.
pub open spec fn field_names() -> Seq<Seq<char>> {
    seq![
        "MAP"@,
        "ENV"@,
        "ENV_PWD_IS_HOST_CWD"@,
        "ENV_EXE_NAME_IS_HOST_EXE_NAME"@,
        "FROM"@,
        "LINK"@,
        "NET"@,
        "ARGV"@,
        "ENTRYPOINT"@,
    ]
}

/// `fields`, with the list `list` under `name` unless the list is empty.
pub open spec fn with_list(fields: Fields, name: Seq<char>, list: Seq<Seq<char>>) -> Fields {
    if list.len() == 0 {
        fields
    } else {
        fields.push((name, FieldValue::List(list)))
    }
}

/// `fields`, with `text` under `name` unless the text is empty.
pub open spec fn with_text(fields: Fields, name: Seq<char>, text: Seq<char>) -> Fields {
    if text.len() == 0 {
        fields
    } else {
        fields.push((name, FieldValue::Text(text)))
    }
}

/// `fields`, with `true` under `name` where `flag` is set.
pub open spec fn with_flag(fields: Fields, name: Seq<char>, flag: bool) -> Fields {
    if flag {
        fields.push((name, FieldValue::Flag(true)))
    } else {
        fields
    }
}

/// The mappings as they are written, `host:guest` each.
pub open spec fn written_mappings(mappings: Seq<(Seq<char>, Seq<char>)>) -> Seq<Seq<char>> {
    Seq::new(mappings.len(), |i: int| written(mappings[i]))
}

/// The record of `manifest`.
pub open spec fn record_of(manifest: ManifestView) -> Fields {
    let a = with_list(Seq::empty(), "MAP"@, written_mappings(manifest.mappings));
    let b = with_list(a, "ENV"@, manifest.env);
    let c = with_flag(b, "ENV_PWD_IS_HOST_CWD"@, manifest.inherit_cwd);
    let d = with_flag(c, "ENV_EXE_NAME_IS_HOST_EXE_NAME"@, manifest.inherit_process_name);
    let e = with_text(d, "FROM"@, manifest.source_path);
    let f = with_list(e, "LINK"@, manifest.dependencies);
    let g = with_list(f, "NET"@, manifest.network_allow);
    let h = with_list(g, "ARGV"@, manifest.entry_args);
    with_text(h, "ENTRYPOINT"@, manifest.entry_call)
}

/// What `manifest` serializes to, or `None` where the encoder reports an
/// error.
pub open spec fn serialized(manifest: ManifestView) -> Option<Seq<char>> {
    rendered(record_of(manifest))
}

/// Calls `serde_json::Map::new`. Trusted: the new object holds no field.
#[verifier::external_body]
fn new_object() -> (object: serde_json::Map<String, serde_json::Value>)
    ensures
        fields_in(object) == Seq::<(Seq<char>, FieldValue)>::empty(),
{
    serde_json::Map::new()
}

/// Calls `serde_json::Map::insert` with a `Value::String`. Trusted: a
/// field of that name keeps its place and takes the value, else the field
/// comes last.
#[verifier::external_body]
fn insert_text(object: &mut serde_json::Map<String, serde_json::Value>, name: &str, text: &str)
    ensures
        fields_in(*final(object)) == put(fields_in(*old(object)), name@, FieldValue::Text(text@)),
{
    object.insert(name.to_owned(), serde_json::Value::from(text));
}

/// Calls `serde_json::Map::insert` with a `Value::Array` of strings.
/// Trusted: as for `insert_text`.
#[verifier::external_body]
fn insert_list(
    object: &mut serde_json::Map<String, serde_json::Value>,
    name: &str,
    list: &Vec<String>,
)
    ensures
        fields_in(*final(object)) == put(
            fields_in(*old(object)),
            name@,
            FieldValue::List(list.deep_view()),
        ),
{
    object.insert(name.to_owned(), serde_json::Value::from(list.as_slice()));
}

/// Calls `serde_json::Map::insert` with a `Value::Bool`. Trusted: as for
/// `insert_text`.
#[verifier::external_body]
fn insert_flag(object: &mut serde_json::Map<String, serde_json::Value>, name: &str, flag: bool)
    ensures
        fields_in(*final(object)) == put(fields_in(*old(object)), name@, FieldValue::Flag(flag)),
{
    object.insert(name.to_owned(), serde_json::Value::from(flag));
}

/// Calls `serde_json::to_string_pretty`. Trusted: the text is the one that
/// `rendered` names for the object's fields, and an error comes exactly
/// where it names none.
#[verifier::external_body]
fn render(object: &serde_json::Map<String, serde_json::Value>) -> (r: Result<
    String,
    serde_json::Error,
>)
    ensures
        match r {
            Ok(text) => rendered(fields_in(*object)) == Some(text@),
            Err(_) => rendered(fields_in(*object)) is None,
        },
{
    serde_json::to_string_pretty(object)
}

/// Puts `list` under `name` unless it is empty.
fn add_list(
    object: &mut serde_json::Map<String, serde_json::Value>,
    name: &str,
    list: &Vec<String>,
)
    requires
        lacks(fields_in(*old(object)), name@),
    ensures
        fields_in(*final(object)) == with_list(fields_in(*old(object)), name@, list.deep_view()),
{
    if list.len() > 0 {
        insert_list(object, name, list);
    }
}

/// Puts `text` under `name` unless it is empty.
fn add_text(object: &mut serde_json::Map<String, serde_json::Value>, name: &str, text: &str)
    requires
        lacks(fields_in(*old(object)), name@),
    ensures
        fields_in(*final(object)) == with_text(fields_in(*old(object)), name@, text@),
{
    if text.unicode_len() > 0 {
        insert_text(object, name, text);
    }
}

/// Puts `true` under `name` where `flag` is set.
fn add_flag(object: &mut serde_json::Map<String, serde_json::Value>, name: &str, flag: bool)
    requires
        lacks(fields_in(*old(object)), name@),
    ensures
        fields_in(*final(object)) == with_flag(fields_in(*old(object)), name@, flag),
{
    if flag {
        insert_flag(object, name, true);
    }
}

/// The mappings as they are written, `host:guest` each.
pub fn write_mappings(mappings: &Vec<(String, String)>) -> (out: Vec<String>)
    ensures
        out.deep_view() == written_mappings(mappings.deep_view()),
{
    proof {
        reveal_strlit(":");
    }
    let ghost all = mappings.deep_view();
    let mut out: Vec<String> = Vec::new();
    let mut i: usize = 0;
    while i < mappings.len()
        invariant
            i <= mappings.len(),
            all == mappings.deep_view(),
            ":"@ == seq![':'],
            out.deep_view() == written_mappings(all.take(i as int)),
        decreases mappings.len() - i,
    {
        let ghost before = out.deep_view();
        let mut line = mappings[i].0.clone();
        line.append(":");
        line.append(mappings[i].1.as_str());
        assert(line@ == written(all[i as int]));
        out.push(line);
        assert(out.deep_view() == before.push(written(all[i as int])));
        assert(written_mappings(all.take(i + 1)) == written_mappings(all.take(i as int)).push(
            written(all[i as int]),
        ));
        i += 1;
    }
    assert(all.take(mappings.len() as int) == all);
    out
}

/// The names of the fields differ from one another.
pub proof fn lemma_field_names_differ()
    ensures
        forall|i: int, j: int|
            0 <= i < j < field_names().len() ==> #[trigger] field_names()[i]
                != #[trigger] field_names()[j],
{
    reveal_strlit("MAP");
    reveal_strlit("ENV");
    reveal_strlit("ENV_PWD_IS_HOST_CWD");
    reveal_strlit("ENV_EXE_NAME_IS_HOST_EXE_NAME");
    reveal_strlit("FROM");
    reveal_strlit("LINK");
    reveal_strlit("NET");
    reveal_strlit("ARGV");
    reveal_strlit("ENTRYPOINT");
    let names = field_names();
    assert(names[0][0] == 'M' && names[0].len() == 3);
    assert(names[1][0] == 'E' && names[1].len() == 3);
    assert(names[2].len() == 19);
    assert(names[3].len() == 29);
    assert(names[4][0] == 'F' && names[4].len() == 4);
    assert(names[5][0] == 'L' && names[5].len() == 4);
    assert(names[6][0] == 'N' && names[6].len() == 3);
    assert(names[7][0] == 'A' && names[7].len() == 4);
    assert(names[8].len() == 10);
}

/// Fields that bear only names before the one at `count` lack that one,
/// and with it added bear only names up to it.
proof fn lemma_next_name(fields: Fields, count: int)
    requires
        0 <= count < field_names().len(),
        named_among(fields, field_names(), count),
    ensures
        lacks(fields, field_names()[count]),
        forall|value: FieldValue|
            named_among(
                #[trigger] fields.push((field_names()[count], value)),
                field_names(),
                count + 1,
            ),
        named_among(fields, field_names(), count + 1),
{
    lemma_field_names_differ();
    let names = field_names();
    assert forall|j: int| !named_at(fields, names[count], j) by {
        if 0 <= j < fields.len() {
            let k = choose|k: int| 0 <= k < count && k < names.len() && fields[j].0 == names[k];
            assert(names[k] != names[count]);
        }
    }
    assert forall|value: FieldValue|
        named_among(#[trigger] fields.push((names[count], value)), names, count + 1) by {
        let after = fields.push((names[count], value));
        assert forall|j: int| 0 <= j < after.len() implies exists|k: int|
            0 <= k < count + 1 && k < names.len() && (#[trigger] after[j]).0 == #[trigger] names[k] by {
            if j < fields.len() {
                let k = choose|k: int|
                    0 <= k < count && k < names.len() && fields[j].0 == names[k];
                assert(after[j].0 == names[k]);
            } else {
                assert(after[j].0 == names[count]);
            }
        }
    }
    assert forall|j: int| 0 <= j < fields.len() implies exists|k: int|
        0 <= k < count + 1 && k < names.len() && (#[trigger] fields[j]).0 == #[trigger] names[k] by {
        let k = choose|k: int| 0 <= k < count && k < names.len() && fields[j].0 == names[k];
        assert(fields[j].0 == names[k]);
    }
}

/// No name stands twice in a record.
pub proof fn lemma_record_names_differ(manifest: ManifestView)
    ensures
        forall|i: int, j: int|
            0 <= i < j < record_of(manifest).len() ==> (#[trigger] record_of(manifest)[i]).0 != (
            #[trigger] record_of(manifest)[j]).0,
{
    let names = field_names();
    let a = with_list(Seq::empty(), "MAP"@, written_mappings(manifest.mappings));
    let b = with_list(a, "ENV"@, manifest.env);
    let c = with_flag(b, "ENV_PWD_IS_HOST_CWD"@, manifest.inherit_cwd);
    let d = with_flag(c, "ENV_EXE_NAME_IS_HOST_EXE_NAME"@, manifest.inherit_process_name);
    let e = with_text(d, "FROM"@, manifest.source_path);
    let f = with_list(e, "LINK"@, manifest.dependencies);
    let g = with_list(f, "NET"@, manifest.network_allow);
    let h = with_list(g, "ARGV"@, manifest.entry_args);
    let i = with_text(h, "ENTRYPOINT"@, manifest.entry_call);
    let start: Fields = Seq::empty();
    lemma_grows(start, a, 0);
    lemma_grows(a, b, 1);
    lemma_grows(b, c, 2);
    lemma_grows(c, d, 3);
    lemma_grows(d, e, 4);
    lemma_grows(e, f, 5);
    lemma_grows(f, g, 6);
    lemma_grows(g, h, 7);
    lemma_grows(h, i, 8);
}

/// Whether no name stands twice in `fields`.
pub open spec fn names_differ(fields: Fields) -> bool {
    forall|i: int, j: int|
        0 <= i < j < fields.len() ==> (#[trigger] fields[i]).0 != (#[trigger] fields[j]).0
}

/// A record in the making stays free of repeated names when the field of
/// the next name is added to it, or left out.
proof fn lemma_grows(before: Fields, after: Fields, count: int)
    requires
        0 <= count < field_names().len(),
        named_among(before, field_names(), count),
        names_differ(before),
        after == before || exists|value: FieldValue|
            after == before.push((field_names()[count], value)),
    ensures
        named_among(after, field_names(), count + 1),
        names_differ(after),
{
    lemma_next_name(before, count);
    if after != before {
        let value = choose|value: FieldValue| after == before.push((field_names()[count], value));
        assert(named_among(before.push((field_names()[count], value)), field_names(), count + 1));
        assert forall|i: int, j: int| 0 <= i < j < after.len() implies (#[trigger] after[i]).0 != (
        #[trigger] after[j]).0 by {
            if j == before.len() {
                assert(!named_at(before, field_names()[count], i));
            }
        }
    }
}

/// Serializes `manifest` as a pretty-printed JSON object. `None` where the
/// encoder reports an error.
pub fn serialize(manifest: &Manifest) -> (r: Option<String>)
    ensures
        r.deep_view() == serialized(manifest@),
{
    let ghost names = field_names();
    let mut object = new_object();
    let mappings = write_mappings(&manifest.mappings);
    proof {
        lemma_next_name(fields_in(object), 0);
    }
    add_list(&mut object, "MAP", &mappings);
    proof {
        lemma_next_name(fields_in(object), 1);
    }
    add_list(&mut object, "ENV", &manifest.env);
    proof {
        lemma_next_name(fields_in(object), 2);
    }
    add_flag(&mut object, "ENV_PWD_IS_HOST_CWD", manifest.inherit_cwd);
    proof {
        lemma_next_name(fields_in(object), 3);
    }
    add_flag(&mut object, "ENV_EXE_NAME_IS_HOST_EXE_NAME", manifest.inherit_process_name);
    proof {
        lemma_next_name(fields_in(object), 4);
    }
    add_text(&mut object, "FROM", manifest.source_path.as_str());
    proof {
        lemma_next_name(fields_in(object), 5);
    }
    add_list(&mut object, "LINK", &manifest.dependencies);
    proof {
        lemma_next_name(fields_in(object), 6);
    }
    add_list(&mut object, "NET", &manifest.network_allow);
    proof {
        lemma_next_name(fields_in(object), 7);
    }
    add_list(&mut object, "ARGV", &manifest.entry_args);
    proof {
        lemma_next_name(fields_in(object), 8);
    }
    add_text(&mut object, "ENTRYPOINT", manifest.entry_call.as_str());
    match render(&object) {
        Ok(text) => Some(text),
        Err(_) => None,
    }
}

} // verus!
