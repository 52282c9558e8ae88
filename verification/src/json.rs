//! A minimal JSON value tree and field lookup over JSON objects.
//!
//! The decoder works on [`Json`] values, which this crate owns, so that
//! every structural rule about a document can be stated and verified.
//! The only unverified step is the syntactic parse of the input text,
//! which serde_json performs behind [`parse_json_text`].

use vstd::prelude::*;

verus! {

/// A JSON value as this library sees one.
///
/// Numbers are kept as their literal text: the schema decoded by this
/// crate never interprets a number, it only carries opaque values
/// through.  Objects are ordered lists of key/value pairs.
#[derive(Debug, PartialEq)]
pub enum Json {
    Null,
    Bool(bool),
    Num(String),
    Text(String),
    Arr(Vec<Json>),
    Obj(Vec<(String, Json)>),
}

/// The text of a JSON string value.
pub open spec fn text_of(j: Json) -> Seq<char>
    recommends
        j is Text,
{
    match j {
        Json::Text(s) => s@,
        _ => Seq::empty(),
    }
}

/// The texts of a sequence of JSON string values.
pub open spec fn texts_of(items: Seq<Json>) -> Seq<Seq<char>> {
    items.map_values(|j: Json| text_of(j))
}

/// The view of an object's entries, values kept as they are.
pub open spec fn entry_views(entries: Seq<(String, Json)>) -> Seq<(Seq<char>, Json)> {
    entries.map_values(|p: (String, Json)| (p.0@, p.1))
}

/// The view of an object's entries whose values are all strings.
pub open spec fn entry_text_views(entries: Seq<(String, Json)>) -> Seq<(Seq<char>, Seq<char>)> {
    entries.map_values(|p: (String, Json)| (p.0@, text_of(p.1)))
}

/// The value of the first field named `name`, if any.
pub open spec fn lookup(fields: Seq<(String, Json)>, name: Seq<char>) -> Option<Json>
    decreases fields.len(),
{
    if fields.len() == 0 {
        None
    } else if fields[0].0@ == name {
        Some(fields[0].1)
    } else {
        lookup(fields.drop_first(), name)
    }
}

/// If `fields[i]` is the first field named `name`, the lookup returns its value.
proof fn lemma_lookup_first_match(fields: Seq<(String, Json)>, name: Seq<char>, i: int)
    requires
        0 <= i < fields.len(),
        fields[i].0@ == name,
        forall|k: int| 0 <= k < i ==> #[trigger] fields[k].0@ != name,
    ensures
        lookup(fields, name) == Some(fields[i].1),
    decreases i,
{
    if i > 0 {
        lemma_lookup_first_match(fields.drop_first(), name, i - 1);
    }
}

/// If no field is named `name`, the lookup returns nothing.
proof fn lemma_lookup_none(fields: Seq<(String, Json)>, name: Seq<char>)
    requires
        forall|k: int| 0 <= k < fields.len() ==> #[trigger] fields[k].0@ != name,
    ensures
        lookup(fields, name) is None,
    decreases fields.len(),
{
    if fields.len() > 0 {
        lemma_lookup_none(fields.drop_first(), name);
    }
}

/// Removing a field whose name is not `n` leaves the lookup of `n` unchanged.
proof fn lemma_lookup_remove(fields: Seq<(String, Json)>, i: int, n: Seq<char>)
    requires
        0 <= i < fields.len(),
        fields[i].0@ != n,
    ensures
        lookup(fields.remove(i), n) == lookup(fields, n),
    decreases i,
{
    if i == 0 {
        assert(fields.remove(0) =~= fields.drop_first());
    } else {
        assert(fields.remove(i).drop_first() =~= fields.drop_first().remove(i - 1));
        lemma_lookup_remove(fields.drop_first(), i - 1, n);
    }
}

/// Removes the first field named `name` from `fields` and returns its
/// value; fields under any other name keep their lookup.
pub fn take_field(fields: &mut Vec<(String, Json)>, name: &String) -> (r: Option<Json>)
    ensures
        r == lookup(old(fields)@, name@),
        forall|n: Seq<char>| n != name@ ==> lookup(final(fields)@, n) == lookup(old(fields)@, n),
{
    let ghost o = fields@;
    let mut i: usize = 0;
    while i < fields.len()
        invariant
            0 <= i <= fields.len(),
            fields@ == o,
            o == old(fields)@,
            forall|k: int| 0 <= k < i ==> #[trigger] o[k].0@ != name@,
        decreases fields.len() - i,
    {
        if fields[i].0 == *name {
            let pair = fields.remove(i);
            proof {
                lemma_lookup_first_match(o, name@, i as int);
                assert forall|n: Seq<char>| n != name@ implies lookup(fields@, n) == lookup(
                    o,
                    n,
                ) by {
                    lemma_lookup_remove(o, i as int, n);
                }
            }
            return Some(pair.1);
        }
        i += 1;
    }
    proof {
        lemma_lookup_none(o, name@);
    }
    None
}

/// Finds the first field named `name` in `fields`, without removing it.
pub fn find_field<'a>(fields: &'a Vec<(String, Json)>, name: &String) -> (r: Option<&'a Json>)
    ensures
        (match r {
            Some(v) => lookup(fields@, name@) == Some(*v),
            None => lookup(fields@, name@) is None,
        }),
{
    let mut i: usize = 0;
    while i < fields.len()
        invariant
            0 <= i <= fields.len(),
            forall|k: int| 0 <= k < i ==> #[trigger] fields@[k].0@ != name@,
        decreases fields.len() - i,
    {
        if fields[i].0 == *name {
            proof {
                lemma_lookup_first_match(fields@, name@, i as int);
            }
            return Some(&fields[i].1);
        }
        i += 1;
    }
    proof {
        lemma_lookup_none(fields@, name@);
    }
    None
}

/// Whether an object's field names are pairwise distinct.
pub open spec fn distinct_keys(entries: Seq<(String, Json)>) -> bool {
    forall|a: int, b: int|
        0 <= a < b < entries.len() ==> (#[trigger] entries[a]).0@ != (#[trigger] entries[b]).0@
}

/// Whether every object of a JSON tree carries pairwise distinct
/// field names, as the maps of the underlying parser guarantee of
/// every parsed document.
pub open spec fn well_formed(j: Json) -> bool
    decreases j,
{
    match j {
        Json::Arr(items) => forall|k: int|
            0 <= k < items@.len() ==> well_formed(#[trigger] items@[k]),
        Json::Obj(entries) => distinct_keys(entries@) && (forall|k: int|
            0 <= k < entries@.len() ==> well_formed((#[trigger] entries@[k]).1)),
        _ => true,
    }
}

/// A field looked up among well-formed values is well formed.
pub proof fn lemma_lookup_well_formed(fields: Seq<(String, Json)>, name: Seq<char>)
    requires
        forall|k: int| 0 <= k < fields.len() ==> well_formed((#[trigger] fields[k]).1),
    ensures
        (match lookup(fields, name) {
            Some(v) => well_formed(v),
            None => true,
        }),
    decreases fields.len(),
{
    if fields.len() > 0 && fields[0].0@ != name {
        assert forall|k: int| 0 <= k < fields.drop_first().len() implies well_formed(
            (#[trigger] fields.drop_first()[k]).1,
        ) by {
            assert(fields.drop_first()[k] == fields[k + 1]);
        }
        lemma_lookup_well_formed(fields.drop_first(), name);
    }
}

#[verifier::external_type_specification]
#[verifier::external_body]
pub struct ExValue(serde_json::Value);

/// The JSON value that a text parses to, or nothing where the text is
/// not syntactically valid JSON.
pub uninterp spec fn json_of(s: Seq<char>) -> Option<Json>;

/// Relies on the variants of serde_json::Value: each one is carried
/// over to [`Json`] one for one, a number as its literal decimal text.
#[verifier::external_body]
fn convert_value(v: serde_json::Value) -> Json {
    match v {
        serde_json::Value::Null => Json::Null,
        serde_json::Value::Bool(b) => Json::Bool(b),
        serde_json::Value::Number(n) => Json::Num(n.to_string()),
        serde_json::Value::String(s) => Json::Text(s),
        serde_json::Value::Array(a) => Json::Arr(a.into_iter().map(convert_value).collect()),
        serde_json::Value::Object(m) => Json::Obj(
            m.into_iter().map(|(k, x)| (k, convert_value(x))).collect(),
        ),
    }
}

/// Relies on serde_json::from_str: whether a text parses as JSON, and
/// the value it parses to, depend on the text alone; and every object
/// of a parsed value is a map, so its field names are distinct.
#[verifier::external_body]
pub fn parse_json_text(s: &str) -> (r: Option<Json>)
    ensures
        r == json_of(s@),
        r matches Some(j) ==> well_formed(j),
{
    match serde_json::from_str::<serde_json::Value>(s) {
        Ok(v) => Some(convert_value(v)),
        Err(_) => None,
    }
}

} // verus!
