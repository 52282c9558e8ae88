//! The decoder: maps a JSON document onto the schema types, applying
//! field-name translation, default substitution and structural
//! validation.  Each exec function is specified exactly by a spec
//! function over the [`Json`] tree.

use vstd::prelude::*;

use crate::digest::{is_valid_digest, digest_text_is_valid, Digest};
use crate::json::{
    entry_text_views, entry_views, find_field, json_of, lemma_lookup_well_formed, lookup,
    parse_json_text, take_field, text_of, texts_of, well_formed, Json,
};
use crate::schema::{
    default_as_false, history_views, label_views, views_of_digests, views_of_strings,
    Architecture, Config, ConfigV, Configuration, ConfigurationV, History, HistoryV, RootFS,
    RootFSType, RootFSV, OS,
};

verus! {

/// The field (or document position) at which a decode failed.
#[derive(Debug, Clone, Copy, PartialEq, Eq, Structural)]
pub enum Field {
    /// The document itself, where it is not an object.
    Document,
    Created,
    Author,
    Architecture,
    Os,
    Config,
    Rootfs,
    History,
    User,
    ExposedPorts,
    Env,
    Entrypoint,
    Cmd,
    Volumes,
    WorkingDir,
    Labels,
    DiffIds,
    RootfsType,
    CreatedBy,
    EmptyLayer,
}

/// Why a decode failed.  Decoding is all or nothing: any of these
/// aborts it and no partial document is returned.
#[derive(Debug, Clone, Copy, PartialEq, Eq, Structural)]
pub enum DecodeError {
    /// The input text is not syntactically valid JSON.
    Syntax,
    /// A required field is absent.
    Missing(Field),
    /// A field's value has the wrong shape.
    WrongType(Field),
    /// An enumerated field holds an unrecognized value.
    InvalidEnum(Field),
    /// A content identifier is not of the shape `algorithm:hex-digest`
    /// (strict decoding only).
    InvalidDigest(Field),
}

/// The error of a failed result.
pub open spec fn err_of<T>(r: Result<T, DecodeError>) -> DecodeError
    recommends
        r is Err,
{
    match r {
        Ok(_) => arbitrary(),
        Err(e) => e,
    }
}

/// The value of a successful result.
pub open spec fn ok_of<T>(r: Result<T, DecodeError>) -> T
    recommends
        r is Ok,
{
    match r {
        Ok(v) => v,
        Err(_) => arbitrary(),
    }
}

/// Decode of a required string value.
pub open spec fn spec_string(j: Json, f: Field) -> Result<Seq<char>, DecodeError> {
    match j {
        Json::Text(s) => Ok(s@),
        _ => Err(DecodeError::WrongType(f)),
    }
}

/// Decode of a required boolean value.
pub open spec fn spec_bool(j: Json, f: Field) -> Result<bool, DecodeError> {
    match j {
        Json::Bool(b) => Ok(b),
        _ => Err(DecodeError::WrongType(f)),
    }
}

/// Decode of an operating-system tag: exactly `"linux"` or
/// `"windows"`, case-sensitively.
pub open spec fn spec_os(j: Json) -> Result<OS, DecodeError> {
    match j {
        Json::Text(s) => if s@ == "linux"@ {
            Ok(OS::Linux)
        } else if s@ == "windows"@ {
            Ok(OS::Windows)
        } else {
            Err(DecodeError::InvalidEnum(Field::Os))
        },
        _ => Err(DecodeError::WrongType(Field::Os)),
    }
}

/// Decode of an architecture tag: exactly `"amd64"` or `"aarch64"`,
/// case-sensitively.
pub open spec fn spec_architecture(j: Json) -> Result<Architecture, DecodeError> {
    match j {
        Json::Text(s) => if s@ == "amd64"@ {
            Ok(Architecture::Amd64)
        } else if s@ == "aarch64"@ {
            Ok(Architecture::Aarch64)
        } else {
            Err(DecodeError::InvalidEnum(Field::Architecture))
        },
        _ => Err(DecodeError::WrongType(Field::Architecture)),
    }
}

/// Decode of a filesystem type tag: only `"layers"` is recognized.
pub open spec fn spec_rootfs_type(j: Json) -> Result<RootFSType, DecodeError> {
    match j {
        Json::Text(s) => if s@ == "layers"@ {
            Ok(RootFSType::Layers)
        } else {
            Err(DecodeError::InvalidEnum(Field::RootfsType))
        },
        _ => Err(DecodeError::WrongType(Field::RootfsType)),
    }
}

fn decode_string(j: Json, f: Field) -> (r: Result<String, DecodeError>)
    ensures
        (match r {
            Ok(s) => spec_string(j, f) == Ok::<Seq<char>, DecodeError>(s@),
            Err(e) => spec_string(j, f) == Err::<Seq<char>, DecodeError>(e),
        }),
{
    match j {
        Json::Text(s) => Ok(s),
        _ => Err(DecodeError::WrongType(f)),
    }
}

fn decode_os(j: &Json) -> (r: Result<OS, DecodeError>)
    ensures
        r == spec_os(*j),
{
    match j {
        Json::Text(s) => {
            if *s == "linux".to_owned() {
                Ok(OS::Linux)
            } else if *s == "windows".to_owned() {
                Ok(OS::Windows)
            } else {
                Err(DecodeError::InvalidEnum(Field::Os))
            }
        },
        _ => Err(DecodeError::WrongType(Field::Os)),
    }
}

fn decode_architecture(j: &Json) -> (r: Result<Architecture, DecodeError>)
    ensures
        r == spec_architecture(*j),
{
    match j {
        Json::Text(s) => {
            if *s == "amd64".to_owned() {
                Ok(Architecture::Amd64)
            } else if *s == "aarch64".to_owned() {
                Ok(Architecture::Aarch64)
            } else {
                Err(DecodeError::InvalidEnum(Field::Architecture))
            }
        },
        _ => Err(DecodeError::WrongType(Field::Architecture)),
    }
}

fn decode_rootfs_type(j: &Json) -> (r: Result<RootFSType, DecodeError>)
    ensures
        r == spec_rootfs_type(*j),
{
    match j {
        Json::Text(s) => {
            if *s == "layers".to_owned() {
                Ok(RootFSType::Layers)
            } else {
                Err(DecodeError::InvalidEnum(Field::RootfsType))
            }
        },
        _ => Err(DecodeError::WrongType(Field::RootfsType)),
    }
}

/// Decode of a sequence of string values.
pub open spec fn spec_strings(items: Seq<Json>, f: Field) -> Result<Seq<Seq<char>>, DecodeError> {
    if forall|k: int| 0 <= k < items.len() ==> (#[trigger] items[k]) is Text {
        Ok(texts_of(items))
    } else {
        Err(DecodeError::WrongType(f))
    }
}

/// Decode of a required array of strings.
pub open spec fn spec_string_array(j: Json, f: Field) -> Result<Seq<Seq<char>>, DecodeError> {
    match j {
        Json::Arr(items) => spec_strings(items@, f),
        _ => Err(DecodeError::WrongType(f)),
    }
}

#[verifier::loop_isolation(false)]
fn decode_string_array(j: &Json, f: Field) -> (r: Result<Vec<String>, DecodeError>)
    ensures
        (match r {
            Ok(v) => spec_string_array(*j, f) == Ok::<_, DecodeError>(
                views_of_strings(v@),
            ),
            Err(e) => spec_string_array(*j, f) == Err::<Seq<Seq<char>>, DecodeError>(e),
        }),
{
    match j {
        Json::Arr(items) => {
            let mut out: Vec<String> = Vec::new();
            let mut i: usize = 0;
            while i < items.len()
                invariant
                    0 <= i <= items@.len(),
                    forall|k: int| 0 <= k < i ==> (#[trigger] items@[k]) is Text,
                    views_of_strings(out@) == texts_of(items@.take(i as int)),
                decreases items@.len() - i,
            {
                match &items[i] {
                    Json::Text(s) => {
                        let ghost prev = out@;
                        out.push(s.clone());
                        proof {
                            assert forall|k: int| 0 <= k < i + 1 implies views_of_strings(out@)[k]
                                == texts_of(items@.take(i + 1 as int))[k] by {
                                assert(texts_of(items@.take(i + 1 as int))[k] == text_of(
                                    items@.take(i + 1 as int)[k],
                                ));
                                if k < i {
                                    assert(out@[k] == prev[k]);
                                    assert(views_of_strings(prev)[k] == texts_of(
                                        items@.take(i as int),
                                    )[k]);
                                    assert(texts_of(items@.take(i as int))[k] == text_of(
                                        items@.take(i as int)[k],
                                    ));
                                } else {
                                    assert(items@[i as int] == Json::Text(*s));
                                }
                            }
                            assert(views_of_strings(out@) =~= texts_of(
                                items@.take(i + 1 as int),
                            ));
                        }
                    },
                    _ => {
                        return Err(DecodeError::WrongType(f));
                    },
                }
                i += 1;
            }
            proof {
                assert(items@.take(items@.len() as int) =~= items@);
            }
            Ok(out)
        },
        _ => Err(DecodeError::WrongType(f)),
    }
}

/// Decode of a sequence of content identifiers: each must be a string
/// and, under strict decoding, a well-shaped digest.
pub open spec fn spec_digests(items: Seq<Json>, strict: bool) -> Result<
    Seq<Seq<char>>,
    DecodeError,
> {
    if !(forall|k: int| 0 <= k < items.len() ==> (#[trigger] items[k]) is Text) {
        Err(DecodeError::WrongType(Field::DiffIds))
    } else if strict && !(forall|k: int|
        0 <= k < items.len() ==> is_valid_digest(text_of(#[trigger] items[k]))) {
        Err(DecodeError::InvalidDigest(Field::DiffIds))
    } else {
        Ok(texts_of(items))
    }
}

/// Decode of a required array of content identifiers.
pub open spec fn spec_digest_array(j: Json, strict: bool) -> Result<Seq<Seq<char>>, DecodeError> {
    match j {
        Json::Arr(items) => spec_digests(items@, strict),
        _ => Err(DecodeError::WrongType(Field::DiffIds)),
    }
}

#[verifier::loop_isolation(false)]
fn decode_digest_array(j: &Json, strict: bool) -> (r: Result<Vec<Digest>, DecodeError>)
    ensures
        (match r {
            Ok(v) => spec_digest_array(*j, strict) == Ok::<_, DecodeError>(
                views_of_digests(v@),
            ),
            Err(e) => spec_digest_array(*j, strict) == Err::<Seq<Seq<char>>, DecodeError>(e),
        }),
{
    match j {
        Json::Arr(items) => {
            let mut i: usize = 0;
            while i < items.len()
                invariant
                    0 <= i <= items@.len(),
                    forall|k: int| 0 <= k < i ==> (#[trigger] items@[k]) is Text,
                decreases items@.len() - i,
            {
                match &items[i] {
                    Json::Text(_) => {
                    },
                    _ => {
                        return Err(DecodeError::WrongType(Field::DiffIds));
                    },
                }
                i += 1;
            }
            let mut out: Vec<Digest> = Vec::new();
            let mut i: usize = 0;
            while i < items.len()
                invariant
                    0 <= i <= items@.len(),
                    forall|k: int| 0 <= k < items@.len() ==> (#[trigger] items@[k]) is Text,
                    strict ==> forall|k: int|
                        0 <= k < i ==> is_valid_digest(text_of(#[trigger] items@[k])),
                    views_of_digests(out@) == texts_of(items@.take(i as int)),
                decreases items@.len() - i,
            {
                match &items[i] {
                    Json::Text(s) => {
                        if strict && !digest_text_is_valid(s.as_str()) {
                            return Err(DecodeError::InvalidDigest(Field::DiffIds));
                        }
                        let ghost prev = out@;
                        out.push(Digest::new(s.clone()));
                        proof {
                            assert forall|k: int| 0 <= k < i + 1 implies views_of_digests(out@)[k]
                                == texts_of(items@.take(i + 1 as int))[k] by {
                                assert(texts_of(items@.take(i + 1 as int))[k] == text_of(
                                    items@.take(i + 1 as int)[k],
                                ));
                                if k < i {
                                    assert(out@[k] == prev[k]);
                                    assert(views_of_digests(prev)[k] == texts_of(
                                        items@.take(i as int),
                                    )[k]);
                                    assert(texts_of(items@.take(i as int))[k] == text_of(
                                        items@.take(i as int)[k],
                                    ));
                                } else {
                                    assert(items@[i as int] == Json::Text(*s));
                                }
                            }
                            assert(views_of_digests(out@) =~= texts_of(
                                items@.take(i + 1 as int),
                            ));
                        }
                    },
                    _ => {
                        proof {
                            assert(false);
                        }
                    },
                }
                i += 1;
            }
            proof {
                assert(items@.take(items@.len() as int) =~= items@);
            }
            Ok(out)
        },
        _ => Err(DecodeError::WrongType(Field::DiffIds)),
    }
}

/// Decode of a label map: every value must be a string.
pub open spec fn spec_labels(entries: Seq<(String, Json)>) -> Result<
    Seq<(Seq<char>, Seq<char>)>,
    DecodeError,
> {
    if forall|k: int| 0 <= k < entries.len() ==> (#[trigger] entries[k]).1 is Text {
        Ok(entry_text_views(entries))
    } else {
        Err(DecodeError::WrongType(Field::Labels))
    }
}

/// Decode of a required object of string-valued labels.
pub open spec fn spec_label_map(j: Json) -> Result<Seq<(Seq<char>, Seq<char>)>, DecodeError> {
    match j {
        Json::Obj(entries) => spec_labels(entries@),
        _ => Err(DecodeError::WrongType(Field::Labels)),
    }
}

#[verifier::loop_isolation(false)]
fn decode_label_map(j: &Json) -> (r: Result<Vec<(String, String)>, DecodeError>)
    ensures
        (match r {
            Ok(v) => spec_label_map(*j) == Ok::<_, DecodeError>(
                label_views(v@),
            ),
            Err(e) => spec_label_map(*j) == Err::<Seq<(Seq<char>, Seq<char>)>, DecodeError>(e),
        }),
{
    match j {
        Json::Obj(entries) => {
            let mut out: Vec<(String, String)> = Vec::new();
            let mut i: usize = 0;
            while i < entries.len()
                invariant
                    0 <= i <= entries@.len(),
                    forall|k: int| 0 <= k < i ==> (#[trigger] entries@[k]).1 is Text,
                    label_views(out@) == entry_text_views(entries@.take(i as int)),
                decreases entries@.len() - i,
            {
                match &entries[i].1 {
                    Json::Text(s) => {
                        let ghost prev = out@;
                        out.push((entries[i].0.clone(), s.clone()));
                        proof {
                            assert forall|k: int| 0 <= k < i + 1 implies label_views(out@)[k]
                                == entry_text_views(entries@.take(i + 1 as int))[k] by {
                                assert(entry_text_views(entries@.take(i + 1 as int))[k] == (
                                    entries@.take(i + 1 as int)[k].0@,
                                    text_of(entries@.take(i + 1 as int)[k].1),
                                ));
                                if k < i {
                                    assert(out@[k] == prev[k]);
                                    assert(label_views(prev)[k] == entry_text_views(
                                        entries@.take(i as int),
                                    )[k]);
                                    assert(entry_text_views(entries@.take(i as int))[k] == (
                                        entries@.take(i as int)[k].0@,
                                        text_of(entries@.take(i as int)[k].1),
                                    ));
                                } else {
                                    assert(entries@[i as int].1 == Json::Text(*s));
                                }
                            }
                            assert(label_views(out@) =~= entry_text_views(
                                entries@.take(i + 1 as int),
                            ));
                        }
                    },
                    _ => {
                        return Err(DecodeError::WrongType(Field::Labels));
                    },
                }
                i += 1;
            }
            proof {
                assert(entries@.take(entries@.len() as int) =~= entries@);
            }
            Ok(out)
        },
        _ => Err(DecodeError::WrongType(Field::Labels)),
    }
}

/// Decode of a map with opaque values (exposed ports, volumes): the
/// entries are kept exactly as found.
pub open spec fn spec_entry_map(j: Json, f: Field) -> Result<Seq<(Seq<char>, Json)>, DecodeError> {
    match j {
        Json::Obj(entries) => Ok(entry_views(entries@)),
        _ => Err(DecodeError::WrongType(f)),
    }
}

fn decode_entry_map(j: Json, f: Field) -> (r: Result<Vec<(String, Json)>, DecodeError>)
    ensures
        (match r {
            Ok(v) => spec_entry_map(j, f) == Ok::<_, DecodeError>(
                entry_views(v@),
            ),
            Err(e) => spec_entry_map(j, f) == Err::<Seq<(Seq<char>, Json)>, DecodeError>(e),
        }),
{
    match j {
        Json::Obj(entries) => Ok(entries),
        _ => Err(DecodeError::WrongType(f)),
    }
}

/// Decode of a required string field of an object.
pub open spec fn spec_field_string(
    fields: Seq<(String, Json)>,
    name: Seq<char>,
    f: Field,
) -> Result<Seq<char>, DecodeError> {
    match lookup(fields, name) {
        None => Err(DecodeError::Missing(f)),
        Some(v) => spec_string(v, f),
    }
}

/// Decode of one history entry: `created` and `created_by` are
/// required strings; `empty_layer` is an optional boolean that
/// defaults to false when the key is absent.
pub open spec fn spec_history_entry(j: Json) -> Result<HistoryV, DecodeError> {
    match j {
        Json::Obj(fields) => {
            let rc = spec_field_string(fields@, "created"@, Field::Created);
            let rb = spec_field_string(fields@, "created_by"@, Field::CreatedBy);
            let re = (match lookup(fields@, "empty_layer"@) {
                None => Ok(false),
                Some(v) => spec_bool(v, Field::EmptyLayer),
            });
            match (rc, rb, re) {
                (Ok(c), Ok(b), Ok(e)) => Ok(
                    HistoryV { created: c, created_by: b, empty_layer: e },
                ),
                (Err(e), _, _) => Err(e),
                (_, Err(e), _) => Err(e),
                (_, _, Err(e)) => Err(e),
            }
        },
        _ => Err(DecodeError::WrongType(Field::History)),
    }
}

fn decode_history_entry(j: &Json) -> (r: Result<History, DecodeError>)
    ensures
        (match r {
            Ok(h) => spec_history_entry(*j) == Ok::<HistoryV, DecodeError>(h@),
            Err(e) => spec_history_entry(*j) == Err::<HistoryV, DecodeError>(e),
        }),
{
    match j {
        Json::Obj(fields) => {
            let k_created = "created".to_owned();
            let k_created_by = "created_by".to_owned();
            let k_empty_layer = "empty_layer".to_owned();
            let created = match find_field(fields, &k_created) {
                None => {
                    return Err(DecodeError::Missing(Field::Created));
                },
                Some(v) => match v {
                    Json::Text(s) => s.clone(),
                    _ => {
                        return Err(DecodeError::WrongType(Field::Created));
                    },
                },
            };
            let created_by = match find_field(fields, &k_created_by) {
                None => {
                    return Err(DecodeError::Missing(Field::CreatedBy));
                },
                Some(v) => match v {
                    Json::Text(s) => s.clone(),
                    _ => {
                        return Err(DecodeError::WrongType(Field::CreatedBy));
                    },
                },
            };
            let empty_layer = match find_field(fields, &k_empty_layer) {
                None => default_as_false(),
                Some(v) => match v {
                    Json::Bool(b) => *b,
                    _ => {
                        return Err(DecodeError::WrongType(Field::EmptyLayer));
                    },
                },
            };
            Ok(History { created, created_by, empty_layer })
        },
        _ => Err(DecodeError::WrongType(Field::History)),
    }
}

/// Decode of a sequence of history entries; the first failing entry
/// decides the error.
pub open spec fn spec_history_seq(items: Seq<Json>) -> Result<Seq<HistoryV>, DecodeError>
    decreases items.len(),
{
    if items.len() == 0 {
        Ok(Seq::empty())
    } else {
        match spec_history_entry(items[0]) {
            Err(e) => Err(e),
            Ok(h) => match spec_history_seq(items.drop_first()) {
                Err(e) => Err(e),
                Ok(rest) => Ok(Seq::empty().push(h) + rest),
            },
        }
    }
}

/// Decode of a required array of history entries.
pub open spec fn spec_history_array(j: Json) -> Result<Seq<HistoryV>, DecodeError> {
    match j {
        Json::Arr(items) => spec_history_seq(items@),
        _ => Err(DecodeError::WrongType(Field::History)),
    }
}

#[verifier::loop_isolation(false)]
fn decode_history_array(j: &Json) -> (r: Result<Vec<History>, DecodeError>)
    ensures
        (match r {
            Ok(v) => spec_history_array(*j) == Ok::<Seq<HistoryV>, DecodeError>(
                history_views(v@),
            ),
            Err(e) => spec_history_array(*j) == Err::<Seq<HistoryV>, DecodeError>(e),
        }),
{
    match j {
        Json::Arr(items) => {
            let mut out: Vec<History> = Vec::new();
            let mut i: usize = 0;
            proof {
                assert(items@.skip(0) =~= items@);
                if spec_history_seq(items@) is Ok {
                    assert(history_views(out@) + ok_of(spec_history_seq(items@)) =~= ok_of(
                        spec_history_seq(items@),
                    ));
                }
            }
            while i < items.len()
                invariant
                    0 <= i <= items@.len(),
                    out@.len() == i,
                    (match spec_history_seq(items@.skip(i as int)) {
                        Ok(rest) => spec_history_seq(items@) == Ok::<Seq<HistoryV>, DecodeError>(
                            history_views(out@) + rest,
                        ),
                        Err(e) => spec_history_seq(items@) == Err::<Seq<HistoryV>, DecodeError>(e),
                    }),
                decreases items@.len() - i,
            {
                proof {
                    assert(items@.skip(i as int).len() > 0);
                    assert(items@.skip(i as int)[0] == items@[i as int]);
                    assert(items@.skip(i as int).drop_first() =~= items@.skip(i + 1 as int));
                }
                match decode_history_entry(&items[i]) {
                    Err(e) => {
                        return Err(e);
                    },
                    Ok(h) => {
                        let ghost prev = out@;
                        out.push(h);
                        proof {
                            assert(history_views(out@) =~= history_views(prev).push(out@[i as int]@));
                            assert(history_views(out@) + spec_history_seq_rest(items@, i + 1 as int)
                                =~= history_views(prev) + (Seq::empty().push(out@[i as int]@)
                                + spec_history_seq_rest(items@, i + 1 as int)));
                        }
                    },
                }
                i += 1;
            }
            proof {
                assert(items@.skip(items@.len() as int) =~= Seq::<Json>::empty());
                assert(history_views(out@) + Seq::<HistoryV>::empty() =~= history_views(out@));
            }
            Ok(out)
        },
        _ => Err(DecodeError::WrongType(Field::History)),
    }
}

/// What remains of a history decode from position `i` on, where it
/// succeeds.
pub open spec fn spec_history_seq_rest(items: Seq<Json>, i: int) -> Seq<HistoryV> {
    ok_of(spec_history_seq(items.skip(i)))
}

/// The value of the filesystem type tag: the field `rootfs_type`, or,
/// failing that, its accepted alias `type`.
pub open spec fn spec_type_tag(fields: Seq<(String, Json)>) -> Option<Json> {
    match lookup(fields, "rootfs_type"@) {
        Some(v) => Some(v),
        None => lookup(fields, "type"@),
    }
}

/// Decode of the fields of a filesystem descriptor.
pub open spec fn spec_rootfs_fields(fields: Seq<(String, Json)>, strict: bool) -> Result<
    RootFSV,
    DecodeError,
> {
    let rd = (match lookup(fields, "diff_ids"@) {
        None => Err(DecodeError::Missing(Field::DiffIds)),
        Some(v) => spec_digest_array(v, strict),
    });
    let rt = (match spec_type_tag(fields) {
        None => Err(DecodeError::Missing(Field::RootfsType)),
        Some(v) => spec_rootfs_type(v),
    });
    match (rd, rt) {
        (Ok(d), Ok(t)) => Ok(RootFSV { diff_ids: d, rootfs_type: t }),
        (Err(e), _) => Err(e),
        (_, Err(e)) => Err(e),
    }
}

/// Decode of a required filesystem descriptor.
pub open spec fn spec_rootfs(j: Json, strict: bool) -> Result<RootFSV, DecodeError> {
    match j {
        Json::Obj(fields) => spec_rootfs_fields(fields@, strict),
        _ => Err(DecodeError::WrongType(Field::Rootfs)),
    }
}

fn decode_rootfs(j: &Json, strict: bool) -> (r: Result<RootFS, DecodeError>)
    ensures
        (match r {
            Ok(v) => spec_rootfs(*j, strict) == Ok::<RootFSV, DecodeError>(v@),
            Err(e) => spec_rootfs(*j, strict) == Err::<RootFSV, DecodeError>(e),
        }),
{
    match j {
        Json::Obj(fields) => {
            let k_diff_ids = "diff_ids".to_owned();
            let k_rootfs_type = "rootfs_type".to_owned();
            let k_type = "type".to_owned();
            let diff_ids = match find_field(fields, &k_diff_ids) {
                None => {
                    return Err(DecodeError::Missing(Field::DiffIds));
                },
                Some(v) => match decode_digest_array(v, strict) {
                    Ok(d) => d,
                    Err(e) => {
                        return Err(e);
                    },
                },
            };
            let tag = match find_field(fields, &k_rootfs_type) {
                Some(v) => v,
                None => match find_field(fields, &k_type) {
                    Some(v) => v,
                    None => {
                        return Err(DecodeError::Missing(Field::RootfsType));
                    },
                },
            };
            let rootfs_type = match decode_rootfs_type(tag) {
                Ok(t) => t,
                Err(e) => {
                    return Err(e);
                },
            };
            Ok(RootFS { diff_ids, rootfs_type })
        },
        _ => Err(DecodeError::WrongType(Field::Rootfs)),
    }
}

/// Decode of the fields of a runtime configuration: every field is
/// required, though each container may be empty.
pub open spec fn spec_configuration_fields(fields: Seq<(String, Json)>) -> Result<
    ConfigurationV,
    DecodeError,
> {
    let ru = spec_field_string(fields, "User"@, Field::User);
    let rp = (match lookup(fields, "ExposedPorts"@) {
        None => Err(DecodeError::Missing(Field::ExposedPorts)),
        Some(v) => spec_entry_map(v, Field::ExposedPorts),
    });
    let re = (match lookup(fields, "Env"@) {
        None => Err(DecodeError::Missing(Field::Env)),
        Some(v) => spec_string_array(v, Field::Env),
    });
    let rn = (match lookup(fields, "Entrypoint"@) {
        None => Err(DecodeError::Missing(Field::Entrypoint)),
        Some(v) => spec_string_array(v, Field::Entrypoint),
    });
    let rc = (match lookup(fields, "Cmd"@) {
        None => Err(DecodeError::Missing(Field::Cmd)),
        Some(v) => spec_string_array(v, Field::Cmd),
    });
    let rv = (match lookup(fields, "Volumes"@) {
        None => Err(DecodeError::Missing(Field::Volumes)),
        Some(v) => spec_entry_map(v, Field::Volumes),
    });
    let rw = spec_field_string(fields, "WorkingDir"@, Field::WorkingDir);
    let rl = (match lookup(fields, "Labels"@) {
        None => Err(DecodeError::Missing(Field::Labels)),
        Some(v) => spec_label_map(v),
    });
    if ru is Err {
        Err(err_of(ru))
    } else if rp is Err {
        Err(err_of(rp))
    } else if re is Err {
        Err(err_of(re))
    } else if rn is Err {
        Err(err_of(rn))
    } else if rc is Err {
        Err(err_of(rc))
    } else if rv is Err {
        Err(err_of(rv))
    } else if rw is Err {
        Err(err_of(rw))
    } else if rl is Err {
        Err(err_of(rl))
    } else {
        Ok(
            ConfigurationV {
                user: ok_of(ru),
                exposed_ports: ok_of(rp),
                env: ok_of(re),
                entrypoint: ok_of(rn),
                cmd: ok_of(rc),
                volumes: ok_of(rv),
                working_dir: ok_of(rw),
                labels: ok_of(rl),
            },
        )
    }
}

/// Decode of a required runtime configuration.
pub open spec fn spec_configuration(j: Json) -> Result<ConfigurationV, DecodeError> {
    match j {
        Json::Obj(fields) => spec_configuration_fields(fields@),
        _ => Err(DecodeError::WrongType(Field::Config)),
    }
}

fn decode_configuration(j: Json) -> (r: Result<Configuration, DecodeError>)
    ensures
        (match r {
            Ok(v) => spec_configuration(j) == Ok::<ConfigurationV, DecodeError>(v@),
            Err(e) => spec_configuration(j) == Err::<ConfigurationV, DecodeError>(e),
        }),
{
    match j {
        Json::Obj(mut fields) => {
            let ghost o = fields@;
            proof {
                reveal_strlit("User");
                reveal_strlit("ExposedPorts");
                reveal_strlit("Env");
                reveal_strlit("Entrypoint");
                reveal_strlit("Cmd");
                reveal_strlit("Volumes");
                reveal_strlit("WorkingDir");
                reveal_strlit("Labels");
                assert("User"@.len() == 4);
                assert("User"@[0] == 'U');
                assert("ExposedPorts"@.len() == 12);
                assert("ExposedPorts"@[0] == 'E');
                assert("Env"@.len() == 3);
                assert("Env"@[0] == 'E');
                assert("Entrypoint"@.len() == 10);
                assert("Entrypoint"@[0] == 'E');
                assert("Cmd"@.len() == 3);
                assert("Cmd"@[0] == 'C');
                assert("Volumes"@.len() == 7);
                assert("Volumes"@[0] == 'V');
                assert("WorkingDir"@.len() == 10);
                assert("WorkingDir"@[0] == 'W');
                assert("Labels"@.len() == 6);
                assert("Labels"@[0] == 'L');
            }
            let k_user = "User".to_owned();
            let k_exposed_ports = "ExposedPorts".to_owned();
            let k_env = "Env".to_owned();
            let k_entrypoint = "Entrypoint".to_owned();
            let k_cmd = "Cmd".to_owned();
            let k_volumes = "Volumes".to_owned();
            let k_working_dir = "WorkingDir".to_owned();
            let k_labels = "Labels".to_owned();
            let user = match take_field(&mut fields, &k_user) {
                None => {
                    return Err(DecodeError::Missing(Field::User));
                },
                Some(v) => match decode_string(v, Field::User) {
                    Ok(s) => s,
                    Err(e) => {
                        return Err(e);
                    },
                },
            };
            proof {
                assert(lookup(fields@, "ExposedPorts"@) == lookup(o, "ExposedPorts"@));
                assert(lookup(fields@, "Env"@) == lookup(o, "Env"@));
                assert(lookup(fields@, "Entrypoint"@) == lookup(o, "Entrypoint"@));
                assert(lookup(fields@, "Cmd"@) == lookup(o, "Cmd"@));
                assert(lookup(fields@, "Volumes"@) == lookup(o, "Volumes"@));
                assert(lookup(fields@, "WorkingDir"@) == lookup(o, "WorkingDir"@));
                assert(lookup(fields@, "Labels"@) == lookup(o, "Labels"@));
            }
            let exposed_ports = match take_field(&mut fields, &k_exposed_ports) {
                None => {
                    return Err(DecodeError::Missing(Field::ExposedPorts));
                },
                Some(v) => match decode_entry_map(v, Field::ExposedPorts) {
                    Ok(m) => m,
                    Err(e) => {
                        return Err(e);
                    },
                },
            };
            proof {
                assert(lookup(fields@, "Env"@) == lookup(o, "Env"@));
                assert(lookup(fields@, "Entrypoint"@) == lookup(o, "Entrypoint"@));
                assert(lookup(fields@, "Cmd"@) == lookup(o, "Cmd"@));
                assert(lookup(fields@, "Volumes"@) == lookup(o, "Volumes"@));
                assert(lookup(fields@, "WorkingDir"@) == lookup(o, "WorkingDir"@));
                assert(lookup(fields@, "Labels"@) == lookup(o, "Labels"@));
            }
            let env = match take_field(&mut fields, &k_env) {
                None => {
                    return Err(DecodeError::Missing(Field::Env));
                },
                Some(v) => match decode_string_array(&v, Field::Env) {
                    Ok(a) => a,
                    Err(e) => {
                        return Err(e);
                    },
                },
            };
            proof {
                assert(lookup(fields@, "Entrypoint"@) == lookup(o, "Entrypoint"@));
                assert(lookup(fields@, "Cmd"@) == lookup(o, "Cmd"@));
                assert(lookup(fields@, "Volumes"@) == lookup(o, "Volumes"@));
                assert(lookup(fields@, "WorkingDir"@) == lookup(o, "WorkingDir"@));
                assert(lookup(fields@, "Labels"@) == lookup(o, "Labels"@));
            }
            let entrypoint = match take_field(&mut fields, &k_entrypoint) {
                None => {
                    return Err(DecodeError::Missing(Field::Entrypoint));
                },
                Some(v) => match decode_string_array(&v, Field::Entrypoint) {
                    Ok(a) => a,
                    Err(e) => {
                        return Err(e);
                    },
                },
            };
            proof {
                assert(lookup(fields@, "Cmd"@) == lookup(o, "Cmd"@));
                assert(lookup(fields@, "Volumes"@) == lookup(o, "Volumes"@));
                assert(lookup(fields@, "WorkingDir"@) == lookup(o, "WorkingDir"@));
                assert(lookup(fields@, "Labels"@) == lookup(o, "Labels"@));
            }
            let cmd = match take_field(&mut fields, &k_cmd) {
                None => {
                    return Err(DecodeError::Missing(Field::Cmd));
                },
                Some(v) => match decode_string_array(&v, Field::Cmd) {
                    Ok(a) => a,
                    Err(e) => {
                        return Err(e);
                    },
                },
            };
            proof {
                assert(lookup(fields@, "Volumes"@) == lookup(o, "Volumes"@));
                assert(lookup(fields@, "WorkingDir"@) == lookup(o, "WorkingDir"@));
                assert(lookup(fields@, "Labels"@) == lookup(o, "Labels"@));
            }
            let volumes = match take_field(&mut fields, &k_volumes) {
                None => {
                    return Err(DecodeError::Missing(Field::Volumes));
                },
                Some(v) => match decode_entry_map(v, Field::Volumes) {
                    Ok(m) => m,
                    Err(e) => {
                        return Err(e);
                    },
                },
            };
            proof {
                assert(lookup(fields@, "WorkingDir"@) == lookup(o, "WorkingDir"@));
                assert(lookup(fields@, "Labels"@) == lookup(o, "Labels"@));
            }
            let working_dir = match take_field(&mut fields, &k_working_dir) {
                None => {
                    return Err(DecodeError::Missing(Field::WorkingDir));
                },
                Some(v) => match decode_string(v, Field::WorkingDir) {
                    Ok(s) => s,
                    Err(e) => {
                        return Err(e);
                    },
                },
            };
            proof {
                assert(lookup(fields@, "Labels"@) == lookup(o, "Labels"@));
            }
            let labels = match take_field(&mut fields, &k_labels) {
                None => {
                    return Err(DecodeError::Missing(Field::Labels));
                },
                Some(v) => match decode_label_map(&v) {
                    Ok(m) => m,
                    Err(e) => {
                        return Err(e);
                    },
                },
            };
            let c = Configuration {
                user,
                exposed_ports,
                env,
                entrypoint,
                cmd,
                volumes,
                working_dir,
                labels,
            };
            proof {
                assert(c@ =~= ok_of(spec_configuration_fields(o)));
            }
            Ok(c)
        },
        _ => Err(DecodeError::WrongType(Field::Config)),
    }
}

/// Decode of the fields of a whole configuration document.
pub open spec fn spec_document_fields(fields: Seq<(String, Json)>, strict: bool) -> Result<
    ConfigV,
    DecodeError,
> {
    let rc = spec_field_string(fields, "created"@, Field::Created);
    let ra = spec_field_string(fields, "author"@, Field::Author);
    let rar = (match lookup(fields, "architecture"@) {
        None => Err(DecodeError::Missing(Field::Architecture)),
        Some(v) => spec_architecture(v),
    });
    let ro = (match lookup(fields, "os"@) {
        None => Err(DecodeError::Missing(Field::Os)),
        Some(v) => spec_os(v),
    });
    let rcf = (match lookup(fields, "config"@) {
        None => Err(DecodeError::Missing(Field::Config)),
        Some(v) => spec_configuration(v),
    });
    let rrf = (match lookup(fields, "rootfs"@) {
        None => Err(DecodeError::Missing(Field::Rootfs)),
        Some(v) => spec_rootfs(v, strict),
    });
    let rh = (match lookup(fields, "history"@) {
        None => Err(DecodeError::Missing(Field::History)),
        Some(v) => spec_history_array(v),
    });
    if rc is Err {
        Err(err_of(rc))
    } else if ra is Err {
        Err(err_of(ra))
    } else if rar is Err {
        Err(err_of(rar))
    } else if ro is Err {
        Err(err_of(ro))
    } else if rcf is Err {
        Err(err_of(rcf))
    } else if rrf is Err {
        Err(err_of(rrf))
    } else if rh is Err {
        Err(err_of(rh))
    } else {
        Ok(
            ConfigV {
                created: ok_of(rc),
                author: ok_of(ra),
                architecture: ok_of(rar),
                os: ok_of(ro),
                config: ok_of(rcf),
                rootfs: ok_of(rrf),
                history: ok_of(rh),
            },
        )
    }
}

/// Decode of a whole configuration document from its JSON value.
pub open spec fn spec_decode_document(j: Json, strict: bool) -> Result<ConfigV, DecodeError> {
    match j {
        Json::Obj(fields) => spec_document_fields(fields@, strict),
        _ => Err(DecodeError::WrongType(Field::Document)),
    }
}

/// Decodes a configuration document from its JSON value, strictly
/// validating content identifiers where `strict` is set.
pub fn decode_document(j: Json, strict: bool) -> (r: Result<Config, DecodeError>)
    ensures
        (match r {
            Ok(c) => spec_decode_document(j, strict) == Ok::<ConfigV, DecodeError>(c@),
            Err(e) => spec_decode_document(j, strict) == Err::<ConfigV, DecodeError>(e),
        }),
{
    match j {
        Json::Obj(mut fields) => {
            let ghost o = fields@;
            proof {
                reveal_strlit("created");
                reveal_strlit("author");
                reveal_strlit("architecture");
                reveal_strlit("os");
                reveal_strlit("config");
                reveal_strlit("rootfs");
                reveal_strlit("history");
                assert("created"@.len() == 7);
                assert("created"@[0] == 'c');
                assert("author"@.len() == 6);
                assert("author"@[0] == 'a');
                assert("architecture"@.len() == 12);
                assert("architecture"@[0] == 'a');
                assert("os"@.len() == 2);
                assert("os"@[0] == 'o');
                assert("config"@.len() == 6);
                assert("config"@[0] == 'c');
                assert("rootfs"@.len() == 6);
                assert("rootfs"@[0] == 'r');
                assert("history"@.len() == 7);
                assert("history"@[0] == 'h');
            }
            let k_created = "created".to_owned();
            let k_author = "author".to_owned();
            let k_architecture = "architecture".to_owned();
            let k_os = "os".to_owned();
            let k_config = "config".to_owned();
            let k_rootfs = "rootfs".to_owned();
            let k_history = "history".to_owned();
            let created = match take_field(&mut fields, &k_created) {
                None => {
                    return Err(DecodeError::Missing(Field::Created));
                },
                Some(v) => match decode_string(v, Field::Created) {
                    Ok(s) => s,
                    Err(e) => {
                        return Err(e);
                    },
                },
            };
            proof {
                assert(lookup(fields@, "author"@) == lookup(o, "author"@));
                assert(lookup(fields@, "architecture"@) == lookup(o, "architecture"@));
                assert(lookup(fields@, "os"@) == lookup(o, "os"@));
                assert(lookup(fields@, "config"@) == lookup(o, "config"@));
                assert(lookup(fields@, "rootfs"@) == lookup(o, "rootfs"@));
                assert(lookup(fields@, "history"@) == lookup(o, "history"@));
            }
            let author = match take_field(&mut fields, &k_author) {
                None => {
                    return Err(DecodeError::Missing(Field::Author));
                },
                Some(v) => match decode_string(v, Field::Author) {
                    Ok(s) => s,
                    Err(e) => {
                        return Err(e);
                    },
                },
            };
            proof {
                assert(lookup(fields@, "architecture"@) == lookup(o, "architecture"@));
                assert(lookup(fields@, "os"@) == lookup(o, "os"@));
                assert(lookup(fields@, "config"@) == lookup(o, "config"@));
                assert(lookup(fields@, "rootfs"@) == lookup(o, "rootfs"@));
                assert(lookup(fields@, "history"@) == lookup(o, "history"@));
            }
            let architecture = match take_field(&mut fields, &k_architecture) {
                None => {
                    return Err(DecodeError::Missing(Field::Architecture));
                },
                Some(v) => match decode_architecture(&v) {
                    Ok(a) => a,
                    Err(e) => {
                        return Err(e);
                    },
                },
            };
            proof {
                assert(lookup(fields@, "os"@) == lookup(o, "os"@));
                assert(lookup(fields@, "config"@) == lookup(o, "config"@));
                assert(lookup(fields@, "rootfs"@) == lookup(o, "rootfs"@));
                assert(lookup(fields@, "history"@) == lookup(o, "history"@));
            }
            let os = match take_field(&mut fields, &k_os) {
                None => {
                    return Err(DecodeError::Missing(Field::Os));
                },
                Some(v) => match decode_os(&v) {
                    Ok(x) => x,
                    Err(e) => {
                        return Err(e);
                    },
                },
            };
            proof {
                assert(lookup(fields@, "config"@) == lookup(o, "config"@));
                assert(lookup(fields@, "rootfs"@) == lookup(o, "rootfs"@));
                assert(lookup(fields@, "history"@) == lookup(o, "history"@));
            }
            let config = match take_field(&mut fields, &k_config) {
                None => {
                    return Err(DecodeError::Missing(Field::Config));
                },
                Some(v) => match decode_configuration(v) {
                    Ok(c) => c,
                    Err(e) => {
                        return Err(e);
                    },
                },
            };
            proof {
                assert(lookup(fields@, "rootfs"@) == lookup(o, "rootfs"@));
                assert(lookup(fields@, "history"@) == lookup(o, "history"@));
            }
            let rootfs = match take_field(&mut fields, &k_rootfs) {
                None => {
                    return Err(DecodeError::Missing(Field::Rootfs));
                },
                Some(v) => match decode_rootfs(&v, strict) {
                    Ok(x) => x,
                    Err(e) => {
                        return Err(e);
                    },
                },
            };
            proof {
                assert(lookup(fields@, "history"@) == lookup(o, "history"@));
            }
            let history = match take_field(&mut fields, &k_history) {
                None => {
                    return Err(DecodeError::Missing(Field::History));
                },
                Some(v) => match decode_history_array(&v) {
                    Ok(h) => h,
                    Err(e) => {
                        return Err(e);
                    },
                },
            };
            let c = Config { created, author, architecture, os, config, rootfs, history };
            proof {
                assert(c@ =~= ok_of(spec_document_fields(o, strict)));
            }
            Ok(c)
        },
        _ => Err(DecodeError::WrongType(Field::Document)),
    }
}

/// Decode of a configuration document from its text: a syntax failure
/// where the text is not JSON, else the decode of its value.
pub open spec fn spec_parse(s: Seq<char>, strict: bool) -> Result<ConfigV, DecodeError> {
    match json_of(s) {
        None => Err(DecodeError::Syntax),
        Some(j) => spec_decode_document(j, strict),
    }
}

/// Parses and validates a configuration document.  Content
/// identifiers are kept as given, without shape validation.
pub fn parse_config(content: &str) -> (r: Result<Config, DecodeError>)
    ensures
        (match r {
            Ok(c) => spec_parse(content@, false) == Ok::<ConfigV, DecodeError>(c@),
            Err(e) => spec_parse(content@, false) == Err::<ConfigV, DecodeError>(e),
        }),
{
    match parse_json_text(content) {
        None => Err(DecodeError::Syntax),
        Some(j) => decode_document(j, false),
    }
}

/// Parses and validates a configuration document, additionally
/// requiring every content identifier to be of the shape
/// `algorithm:hex-digest`.
pub fn parse_config_strict(content: &str) -> (r: Result<Config, DecodeError>)
    ensures
        (match r {
            Ok(c) => spec_parse(content@, true) == Ok::<ConfigV, DecodeError>(c@),
            Err(e) => spec_parse(content@, true) == Err::<ConfigV, DecodeError>(e),
        }),
{
    match parse_json_text(content) {
        None => Err(DecodeError::Syntax),
        Some(j) => decode_document(j, true),
    }
}

/// Round trip: where a document decodes, every field of the result is
/// exactly the decode of the corresponding input field, which for the
/// plain string fields is the input text itself.
pub proof fn lemma_decode_round_trip(fields: Seq<(String, Json)>, strict: bool)
    requires
        spec_document_fields(fields, strict) is Ok,
    ensures
        ({
            let c = ok_of(spec_document_fields(fields, strict));
            &&& lookup(fields, "created"@) matches Some(v) && v matches Json::Text(t) && c.created
                == t@
            &&& lookup(fields, "author"@) matches Some(v) && v matches Json::Text(t) && c.author
                == t@
            &&& lookup(fields, "architecture"@) matches Some(v) && spec_architecture(v)
                == Ok::<Architecture, DecodeError>(c.architecture)
            &&& lookup(fields, "os"@) matches Some(v) && spec_os(v) == Ok::<OS, DecodeError>(c.os)
            &&& lookup(fields, "config"@) matches Some(v) && spec_configuration(v)
                == Ok::<ConfigurationV, DecodeError>(c.config)
            &&& lookup(fields, "rootfs"@) matches Some(v) && spec_rootfs(v, strict)
                == Ok::<RootFSV, DecodeError>(c.rootfs)
            &&& lookup(fields, "history"@) matches Some(v) && spec_history_array(v)
                == Ok::<Seq<HistoryV>, DecodeError>(c.history)
        }),
{
}

/// Round trip, runtime configuration: where one decodes, every field
/// of the result is exactly the decode of the corresponding input
/// field, which for the plain fields is the input value itself.
pub proof fn lemma_configuration_round_trip(fields: Seq<(String, Json)>)
    requires
        spec_configuration_fields(fields) is Ok,
    ensures
        ({
            let c = ok_of(spec_configuration_fields(fields));
            &&& lookup(fields, "User"@) matches Some(v) && v matches Json::Text(t) && c.user == t@
            &&& lookup(fields, "ExposedPorts"@) matches Some(v) && v matches Json::Obj(m)
                && c.exposed_ports == entry_views(m@)
            &&& lookup(fields, "Env"@) matches Some(v) && v matches Json::Arr(a) && c.env
                == texts_of(a@)
            &&& lookup(fields, "Entrypoint"@) matches Some(v) && v matches Json::Arr(a)
                && c.entrypoint == texts_of(a@)
            &&& lookup(fields, "Cmd"@) matches Some(v) && v matches Json::Arr(a) && c.cmd
                == texts_of(a@)
            &&& lookup(fields, "Volumes"@) matches Some(v) && v matches Json::Obj(m) && c.volumes
                == entry_views(m@)
            &&& lookup(fields, "WorkingDir"@) matches Some(v) && v matches Json::Text(t)
                && c.working_dir == t@
            &&& lookup(fields, "Labels"@) matches Some(v) && v matches Json::Obj(m) && c.labels
                == entry_text_views(m@)
        }),
{
}

/// Round trip, history entry: where one decodes, its timestamp and
/// command are the input texts, and its flag is the input boolean
/// where present.
pub proof fn lemma_history_entry_round_trip(j: Json)
    requires
        spec_history_entry(j) is Ok,
    ensures
        ({
            let h = ok_of(spec_history_entry(j));
            &&& j matches Json::Obj(fields)
            &&& lookup(fields@, "created"@) matches Some(v) && v matches Json::Text(t) && h.created
                == t@
            &&& lookup(fields@, "created_by"@) matches Some(v) && v matches Json::Text(t)
                && h.created_by == t@
            &&& (match lookup(fields@, "empty_layer"@) {
                None => h.empty_layer == false,
                Some(v) => v matches Json::Bool(b) && h.empty_layer == b,
            })
        }),
{
}

/// A history entry that omits `empty_layer` decodes with its
/// "produced no layer" flag false.
pub proof fn lemma_empty_layer_default(j: Json)
    requires
        j matches Json::Obj(fields) && lookup(fields@, "empty_layer"@) is None,
        spec_history_entry(j) is Ok,
    ensures
        ok_of(spec_history_entry(j)).empty_layer == false,
{
}

/// An architecture tag outside `{amd64, aarch64}` decodes to an
/// invalid-enumeration error, and an operating-system tag outside
/// `{linux, windows}` likewise.
pub proof fn lemma_platform_enums(s: String)
    ensures
        s@ != "amd64"@ && s@ != "aarch64"@ ==> spec_architecture(Json::Text(s))
            == Err::<Architecture, DecodeError>(DecodeError::InvalidEnum(Field::Architecture)),
        s@ != "linux"@ && s@ != "windows"@ ==> spec_os(Json::Text(s)) == Err::<OS, DecodeError>(
            DecodeError::InvalidEnum(Field::Os),
        ),
{
}

/// A document does not decode where any required top-level field is
/// absent or fails to decode; in particular one whose platform tags
/// are unrecognized, or whose filesystem descriptor is rejected.
pub proof fn lemma_document_field_error(fields: Seq<(String, Json)>, strict: bool)
    ensures
        (lookup(fields, "architecture"@) matches Some(v) && spec_architecture(v) is Err)
            ==> spec_document_fields(fields, strict) is Err,
        (lookup(fields, "os"@) matches Some(v) && spec_os(v) is Err) ==> spec_document_fields(
            fields,
            strict,
        ) is Err,
        (lookup(fields, "rootfs"@) matches Some(v) && spec_rootfs(v, strict) is Err)
            ==> spec_document_fields(fields, strict) is Err,
        (spec_field_string(fields, "created"@, Field::Created) is Ok && spec_field_string(
            fields,
            "author"@,
            Field::Author,
        ) is Ok && lookup(fields, "architecture"@) is None) ==> spec_document_fields(fields, strict)
            == Err::<ConfigV, DecodeError>(DecodeError::Missing(Field::Architecture)),
        lookup(fields, "architecture"@) matches Some(v) ==> ((spec_field_string(
            fields,
            "created"@,
            Field::Created,
        ) is Ok && spec_field_string(fields, "author"@, Field::Author) is Ok && spec_architecture(
            v,
        ) is Err) ==> spec_document_fields(fields, strict) == Err::<ConfigV, DecodeError>(
            err_of(spec_architecture(v)),
        )),
{
}

/// Both spellings of the filesystem type tag decode identically: a
/// descriptor carrying `rootfs_type` decodes exactly as one carrying
/// the alias `type` with the same value and the same layer list.
pub proof fn lemma_rootfs_type_alias(
    fields1: Seq<(String, Json)>,
    fields2: Seq<(String, Json)>,
    strict: bool,
)
    requires
        lookup(fields1, "diff_ids"@) == lookup(fields2, "diff_ids"@),
        lookup(fields1, "rootfs_type"@) is Some,
        lookup(fields2, "rootfs_type"@) is None,
        lookup(fields2, "type"@) == lookup(fields1, "rootfs_type"@),
    ensures
        spec_rootfs_fields(fields1, strict) == spec_rootfs_fields(fields2, strict),
{
}

/// A filesystem descriptor whose (possibly aliased) type tag reads
/// `"layers"` and whose layer list decodes is accepted, with the
/// `layers` tag.
pub proof fn lemma_rootfs_layers_accepted(fields: Seq<(String, Json)>, strict: bool)
    requires
        spec_type_tag(fields) matches Some(v) && v matches Json::Text(t) && t@ == "layers"@,
        lookup(fields, "diff_ids"@) matches Some(d) && spec_digest_array(d, strict) is Ok,
    ensures
        spec_rootfs_fields(fields, strict) is Ok,
        ok_of(spec_rootfs_fields(fields, strict)).rootfs_type == RootFSType::Layers,
{
}

/// A filesystem descriptor whose type tag is any value other than
/// `"layers"` does not decode.
pub proof fn lemma_rootfs_type_rejected(fields: Seq<(String, Json)>, strict: bool)
    requires
        spec_type_tag(fields) matches Some(v) && spec_rootfs_type(v) is Err,
    ensures
        spec_rootfs_fields(fields, strict) is Err,
{
}

/// In a well-formed document (one whose objects carry distinct field
/// names, as every parsed document does) the decoded port, volume and
/// label maps carry distinct keys too.
pub proof fn lemma_decoded_maps_distinct(j: Json, strict: bool)
    requires
        well_formed(j),
        spec_decode_document(j, strict) is Ok,
    ensures
        ({
            let c = ok_of(spec_decode_document(j, strict)).config;
            &&& (forall|a: int, b: int|
                0 <= a < b < c.exposed_ports.len() ==> (#[trigger] c.exposed_ports[a]).0 != (
                #[trigger] c.exposed_ports[b]).0)
            &&& (forall|a: int, b: int|
                0 <= a < b < c.volumes.len() ==> (#[trigger] c.volumes[a]).0 != (
                #[trigger] c.volumes[b]).0)
            &&& (forall|a: int, b: int|
                0 <= a < b < c.labels.len() ==> (#[trigger] c.labels[a]).0 != (
                #[trigger] c.labels[b]).0)
        }),
{
    match j {
        Json::Obj(fields) => {
            lemma_lookup_well_formed(fields@, "config"@);
            let cv = (match lookup(fields@, "config"@) {
                Some(v) => v,
                None => arbitrary(),
            });
            match cv {
                Json::Obj(cf) => {
                    lemma_lookup_well_formed(cf@, "ExposedPorts"@);
                    lemma_lookup_well_formed(cf@, "Volumes"@);
                    lemma_lookup_well_formed(cf@, "Labels"@);
                },
                _ => {
                    assert(false);
                },
            }
        },
        _ => {
            assert(false);
        },
    }
}

/// Idempotence: decoding is a function of the text alone, so two
/// decodes of one text agree.  The contracts of [`parse_config`] and
/// [`parse_config_strict`] tie every result to [`spec_parse`].
pub proof fn lemma_parse_idempotent(
    s: Seq<char>,
    strict: bool,
    r1: Result<ConfigV, DecodeError>,
    r2: Result<ConfigV, DecodeError>,
)
    requires
        r1 == spec_parse(s, strict),
        r2 == spec_parse(s, strict),
    ensures
        r1 == r2,
{
}

} // verus!
