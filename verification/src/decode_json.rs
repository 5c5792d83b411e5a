//! The structured-format decoder: one document tree in, one canonical
//! response envelope out, all-or-nothing.

use vstd::prelude::*;
use vstd::utf8::{decode_utf8, valid_utf8};

use crate::decode_common::{
    assoc_insert, parse_code_parameter_map, parse_layer_parameter_map, spec_code_echo,
    spec_layer_echo,
};
use crate::error::BojError;
use crate::json::{
    get_ci, get_ci_string, json_document_of, normalize_optional, parse_json_document,
    parse_optional_u32_from_text, spec_get_ci, spec_get_ci_string, spec_normalize,
    spec_opt_u32_from_text, spec_scalar_string, utf8_text, value_to_scalar_string, JsonValue,
};
use crate::model::{
    opt_view, CodeResponse, CodeResponseView, CodeSeries, DataPoint, DataPointView,
    LayerResponse, LayerResponseView, LayerSeries, MetadataEntry, MetadataEntryView,
    MetadataResponse, MetadataResponseView, ResponseMeta, ResponseMetaView, SeriesView,
};
use crate::text::{ci_equal, parse_u16_str, spec_parse_u16, upper_seq, upper_string};

verus! {

// ---------------------------------------------------------------------------
// Response metadata
// ---------------------------------------------------------------------------
/// The text under an optional key, or empty when absent or non-scalar.
pub open spec fn field_or_empty(root: Seq<(String, JsonValue)>, key: Seq<char>) -> Seq<char> {
    match spec_get_ci_string(root, key) {
        Some(s) => s,
        None => Seq::empty(),
    }
}

/// A normalized optional field of an object.
pub open spec fn norm_field(root: Seq<(String, JsonValue)>, key: Seq<char>) -> Option<
    Seq<char>,
> {
    match spec_get_ci_string(root, key) {
        None => None,
        Some(s) => spec_normalize(s),
    }
}

/// What the response metadata of a structured document is: `STATUS` must be
/// present and read as a `u16`; message fields default to empty; the date is
/// normalized.
pub open spec fn spec_parse_meta(root: Seq<(String, JsonValue)>) -> Result<
    ResponseMetaView,
    (),
> {
    match spec_get_ci(root, "STATUS"@) {
        None => Err(()),
        Some(sv) => match spec_scalar_string(sv) {
            Err(()) => Err(()),
            Ok(None) => Err(()),
            Ok(Some(text)) => match spec_parse_u16(text) {
                None => Err(()),
                Some(status) => Ok(
                    ResponseMetaView {
                        status,
                        message_id: field_or_empty(root, "MESSAGEID"@),
                        message: field_or_empty(root, "MESSAGE"@),
                        date: match spec_get_ci_string(root, "DATE"@) {
                            None => None,
                            Some(s) => spec_normalize(s),
                        },
                    },
                ),
            },
        },
    }
}

/// Reads the shared response metadata from a document object.
pub fn parse_meta_from_json_object(root: &Vec<(String, JsonValue)>) -> (r: Result<
    ResponseMeta,
    BojError,
>)
    ensures
        match r {
            Ok(meta) => spec_parse_meta(root@) == Ok::<ResponseMetaView, ()>(meta@),
            Err(e) => spec_parse_meta(root@) is Err && e matches BojError::DecodeError(_),
        },
{
    let status_value = match get_ci(root, "STATUS") {
        Some(v) => v,
        None => {
            return Err(BojError::decode("STATUS not found"));
        },
    };
    let status_text = match value_to_scalar_string(status_value)? {
        Some(t) => t,
        None => {
            return Err(BojError::decode("STATUS must be a string or number"));
        },
    };
    let status = match parse_u16_str(status_text.as_str()) {
        Some(v) => v,
        None => {
            return Err(BojError::decode("STATUS is not a valid integer"));
        },
    };
    let message_id = match get_ci_string(root, "MESSAGEID") {
        Some(s) => s,
        None => String::new(),
    };
    let message = match get_ci_string(root, "MESSAGE") {
        Some(s) => s,
        None => String::new(),
    };
    let date = match get_ci_string(root, "DATE") {
        Some(s) => normalize_optional(s.as_str()),
        None => None,
    };
    Ok(ResponseMeta { status, message_id, message, date })
}

/// What the pagination cursor of a structured document is.
pub open spec fn spec_next_position_json(root: Seq<(String, JsonValue)>) -> Result<
    Option<u32>,
    (),
> {
    match spec_get_ci(root, "NEXTPOSITION"@) {
        None => Ok(None),
        Some(v) => match spec_scalar_string(v) {
            Err(()) => Err(()),
            Ok(o) => spec_opt_u32_from_text(o),
        },
    }
}

/// Reads the pagination cursor from a document object.
pub fn parse_next_position_from_json(root: &Vec<(String, JsonValue)>) -> (r: Result<
    Option<u32>,
    BojError,
>)
    ensures
        match r {
            Ok(n) => spec_next_position_json(root@) == Ok::<Option<u32>, ()>(n),
            Err(e) => spec_next_position_json(root@) is Err && e matches
                BojError::DecodeError(_),
        },
{
    match get_ci(root, "NEXTPOSITION") {
        None => Ok(None),
        Some(v) => {
            let text = value_to_scalar_string(v)?;
            parse_optional_u32_from_text(
                match &text {
                    Some(s) => Some(s.as_str()),
                    None => None,
                },
                "NEXTPOSITION",
            )
        },
    }
}

// ---------------------------------------------------------------------------
// The echoed-parameter map
// ---------------------------------------------------------------------------
/// The string map an object's entries build: scalar values keyed by the
/// upper-cased key, null values skipped, nested values an error.
pub open spec fn entries_string_map(entries: Seq<(String, JsonValue)>) -> Result<
    Seq<(Seq<char>, Seq<char>)>,
    (),
>
    decreases entries.len(),
{
    if entries.len() == 0 {
        Ok(Seq::empty())
    } else {
        match entries_string_map(entries.drop_last()) {
            Err(()) => Err(()),
            Ok(acc) => {
                let last = entries[entries.len() - 1];
                match spec_scalar_string(last.1) {
                    Err(()) => Err(()),
                    Ok(None) => Ok(acc),
                    Ok(Some(text)) => Ok(assoc_insert(acc, upper_seq(last.0@), text)),
                }
            },
        }
    }
}

proof fn lemma_entries_string_map_err(entries: Seq<(String, JsonValue)>, j: int)
    requires
        0 <= j <= entries.len(),
        entries_string_map(entries.take(j)) is Err,
    ensures
        entries_string_map(entries) is Err,
    decreases entries.len() - j,
{
    if j < entries.len() {
        assert(entries.take(j + 1).drop_last() =~= entries.take(j));
        lemma_entries_string_map_err(entries, j + 1);
    } else {
        assert(entries.take(j) =~= entries);
    }
}

/// The string map of an optional document value: absent means empty, an
/// object is read entry by entry, anything else is an error.
pub open spec fn spec_value_string_map(v: Option<JsonValue>) -> Result<
    Seq<(Seq<char>, Seq<char>)>,
    (),
> {
    match v {
        None => Ok(Seq::empty()),
        Some(JsonValue::Object(entries)) => entries_string_map(entries@),
        Some(_) => Err(()),
    }
}

/// Builds the string map of an optional document value.
pub fn value_to_string_map(value: Option<&JsonValue>) -> (r: Result<
    Vec<(String, String)>,
    BojError,
>)
    ensures
        match r {
            Ok(m) => spec_value_string_map(
                match value {
                    Some(v) => Some(*v),
                    None => None,
                },
            ) == Ok::<Seq<(Seq<char>, Seq<char>)>, ()>(m.deep_view()),
            Err(e) => spec_value_string_map(
                match value {
                    Some(v) => Some(*v),
                    None => None,
                },
            ) is Err && e matches BojError::DecodeError(_),
        },
{
    let Some(value_ref) = value else {
        let r: Vec<(String, String)> = Vec::new();
        assert(r.deep_view() =~= Seq::<(Seq<char>, Seq<char>)>::empty());
        return Ok(r);
    };
    let entries = match value_ref {
        JsonValue::Object(entries) => entries,
        _ => {
            return Err(BojError::decode("PARAMETER must be an object"));
        },
    };
    let mut m: Vec<(String, String)> = Vec::new();
    let n = entries.len();
    assert(m.deep_view() =~= Seq::<(Seq<char>, Seq<char>)>::empty());
    for i in 0..n
        invariant
            n == entries.len(),
            spec_value_string_map(
                match value {
                    Some(v) => Some(*v),
                    None => None,
                },
            ) == entries_string_map(entries@),
            entries_string_map(entries@.take(i as int)) == Ok::<
                Seq<(Seq<char>, Seq<char>)>,
                (),
            >(m.deep_view()),
    {
        proof {
            assert(entries@.take(i + 1).drop_last() =~= entries@.take(i as int));
            assert(entries@.take(i + 1)[i as int] == entries@[i as int]);
        }
        match value_to_scalar_string(&entries[i].1) {
            Err(e) => {
                proof {
                    lemma_entries_string_map_err(entries@, i + 1);
                }
                return Err(e);
            },
            Ok(None) => {},
            Ok(Some(text)) => {
                crate::decode_common::assoc_insert_string(
                    &mut m,
                    upper_string(entries[i].0.as_str()),
                    text,
                );
            },
        }
    }
    assert(entries@.take(n as int) =~= entries@);
    Ok(m)
}

// ---------------------------------------------------------------------------
// Data points
// ---------------------------------------------------------------------------
/// One observation read from aligned date and value entries: the date must
/// be a non-null scalar; the value may be null.
pub open spec fn spec_point(d: JsonValue, v: JsonValue) -> Result<DataPointView, ()> {
    match spec_scalar_string(d) {
        Err(()) => Err(()),
        Ok(None) => Err(()),
        Ok(Some(date)) => match spec_scalar_string(v) {
            Err(()) => Err(()),
            Ok(value) => Ok(DataPointView { survey_date: date, value }),
        },
    }
}

/// The observations read from two equal-length arrays, in order.
pub open spec fn spec_points_arrays(ds: Seq<JsonValue>, vs: Seq<JsonValue>) -> Result<
    Seq<DataPointView>,
    (),
>
    decreases ds.len(),
{
    if ds.len() == 0 {
        Ok(Seq::empty())
    } else {
        match spec_points_arrays(ds.drop_last(), vs.drop_last()) {
            Err(()) => Err(()),
            Ok(acc) => match spec_point(ds[ds.len() - 1], vs[ds.len() - 1]) {
                Err(()) => Err(()),
                Ok(p) => Ok(acc.push(p)),
            },
        }
    }
}

proof fn lemma_points_arrays_err(ds: Seq<JsonValue>, vs: Seq<JsonValue>, j: int)
    requires
        0 <= j <= ds.len(),
        ds.len() == vs.len(),
        spec_points_arrays(ds.take(j), vs.take(j)) is Err,
    ensures
        spec_points_arrays(ds, vs) is Err,
    decreases ds.len() - j,
{
    if j < ds.len() {
        assert(ds.take(j + 1).drop_last() =~= ds.take(j));
        assert(vs.take(j + 1).drop_last() =~= vs.take(j));
        lemma_points_arrays_err(ds, vs, j + 1);
    } else {
        assert(ds.take(j) =~= ds);
        assert(vs.take(j) =~= vs);
    }
}

/// What the `VALUES` object of a result row means: two equal-length arrays
/// `SURVEY_DATES` and `VALUES`, read into ordered observations.
pub open spec fn spec_parse_points(row: Seq<(String, JsonValue)>) -> Result<
    Seq<DataPointView>,
    (),
> {
    match spec_get_ci(row, "VALUES"@) {
        None => Err(()),
        Some(values) => match values {
            JsonValue::Object(ventries) => match spec_get_ci(ventries@, "SURVEY_DATES"@) {
                None => Err(()),
                Some(sdv) => match sdv {
                    JsonValue::Array(ds) => match spec_get_ci(ventries@, "VALUES"@) {
                        None => Err(()),
                        Some(vv) => match vv {
                            JsonValue::Array(vs) => if ds@.len() != vs@.len() {
                                Err(())
                            } else {
                                spec_points_arrays(ds@, vs@)
                            },
                            _ => Err(()),
                        },
                    },
                    _ => Err(()),
                },
            },
            _ => Err(()),
        },
    }
}

/// Reads the ordered observations of one result row.
pub fn parse_points_from_json_row(row: &Vec<(String, JsonValue)>) -> (r: Result<
    Vec<DataPoint>,
    BojError,
>)
    ensures
        match r {
            Ok(ps) => spec_parse_points(row@) == Ok::<Seq<DataPointView>, ()>(
                ps.deep_view(),
            ),
            Err(e) => spec_parse_points(row@) is Err && e matches BojError::DecodeError(_),
        },
{
    let values = match get_ci(row, "VALUES") {
        Some(v) => v,
        None => {
            return Err(
                BojError::decode("VALUES object is required in RESULTSET rows for code/layer API"),
            );
        },
    };
    let ventries = match values {
        JsonValue::Object(ventries) => ventries,
        _ => {
            return Err(BojError::decode("VALUES must be an object"));
        },
    };
    let ds = match get_ci(ventries, "SURVEY_DATES") {
        Some(v) => v,
        None => {
            return Err(BojError::decode("VALUES.SURVEY_DATES is required"));
        },
    };
    let ds = match ds {
        JsonValue::Array(ds) => ds,
        _ => {
            return Err(BojError::decode("VALUES.SURVEY_DATES must be an array"));
        },
    };
    let vs = match get_ci(ventries, "VALUES") {
        Some(v) => v,
        None => {
            return Err(BojError::decode("VALUES.VALUES is required"));
        },
    };
    let vs = match vs {
        JsonValue::Array(vs) => vs,
        _ => {
            return Err(BojError::decode("VALUES.VALUES must be an array"));
        },
    };
    if ds.len() != vs.len() {
        return Err(BojError::decode("VALUES.SURVEY_DATES and VALUES.VALUES length mismatch"));
    }
    let n = ds.len();
    let mut points: Vec<DataPoint> = Vec::new();
    assert(points.deep_view() =~= Seq::<DataPointView>::empty());
    for i in 0..n
        invariant
            n == ds.len(),
            n == vs.len(),
            spec_parse_points(row@) == spec_points_arrays(ds@, vs@),
            spec_points_arrays(ds@.take(i as int), vs@.take(i as int)) == Ok::<
                Seq<DataPointView>,
                (),
            >(points.deep_view()),
    {
        proof {
            assert(ds@.take(i + 1).drop_last() =~= ds@.take(i as int));
            assert(vs@.take(i + 1).drop_last() =~= vs@.take(i as int));
            assert(ds@.take(i + 1)[i as int] == ds@[i as int]);
            assert(vs@.take(i + 1)[i as int] == vs@[i as int]);
        }
        let survey_date = match value_to_scalar_string(&ds[i]) {
            Err(e) => {
                proof {
                    lemma_points_arrays_err(ds@, vs@, i + 1);
                }
                return Err(e);
            },
            Ok(None) => {
                proof {
                    lemma_points_arrays_err(ds@, vs@, i + 1);
                }
                return Err(BojError::decode("survey date must be string/number and not null"));
            },
            Ok(Some(d)) => d,
        };
        let value = match value_to_scalar_string(&vs[i]) {
            Err(e) => {
                proof {
                    lemma_points_arrays_err(ds@, vs@, i + 1);
                }
                return Err(e);
            },
            Ok(v) => v,
        };
        let ghost before = points.deep_view();
        points.push(DataPoint { survey_date, value });
        assert(points.deep_view() =~= before.push(points@[points@.len() - 1]@));
    }
    assert(ds@.take(n as int) =~= ds@);
    assert(vs@.take(n as int) =~= vs@);
    Ok(points)
}

// ---------------------------------------------------------------------------
// Forward-compatibility extras
// ---------------------------------------------------------------------------
/// Whether the key equals some member of the list, ASCII case-insensitively.
pub open spec fn ci_member(known: Seq<Seq<char>>, key: Seq<char>) -> bool {
    exists|i: int| 0 <= i < known.len() && ci_equal(#[trigger] known[i], key)
}

/// The unrecognized entries of a result row: entries whose key is no
/// dedicated field, with their scalar rendering; a nested value is an error.
pub open spec fn spec_collect_extras(
    entries: Seq<(String, JsonValue)>,
    known: Seq<Seq<char>>,
) -> Result<Seq<(Seq<char>, Option<Seq<char>>)>, ()>
    decreases entries.len(),
{
    if entries.len() == 0 {
        Ok(Seq::empty())
    } else {
        match spec_collect_extras(entries.drop_last(), known) {
            Err(()) => Err(()),
            Ok(acc) => {
                let last = entries[entries.len() - 1];
                if ci_member(known, last.0@) {
                    Ok(acc)
                } else {
                    match spec_scalar_string(last.1) {
                        Err(()) => Err(()),
                        Ok(value) => Ok(acc.push((last.0@, value))),
                    }
                }
            },
        }
    }
}

proof fn lemma_collect_extras_err(
    entries: Seq<(String, JsonValue)>,
    known: Seq<Seq<char>>,
    j: int,
)
    requires
        0 <= j <= entries.len(),
        spec_collect_extras(entries.take(j), known) is Err,
    ensures
        spec_collect_extras(entries, known) is Err,
    decreases entries.len() - j,
{
    if j < entries.len() {
        assert(entries.take(j + 1).drop_last() =~= entries.take(j));
        lemma_collect_extras_err(entries, known, j + 1);
    } else {
        assert(entries.take(j) =~= entries);
    }
}

/// Whether the key equals some member of the list, ASCII case-insensitively.
fn ci_key_in(known: &Vec<&'static str>, key: &str) -> (r: bool)
    ensures
        r == ci_member(known.deep_view(), key@),
{
    let n = known.len();
    for i in 0..n
        invariant
            n == known.len(),
            forall|j: int| 0 <= j < i ==> !ci_equal(#[trigger] known.deep_view()[j], key@),
    {
        if crate::text::eq_ignore_case(known[i], key) {
            assert(ci_equal(known.deep_view()[i as int], key@));
            return true;
        }
    }
    false
}

/// Collects the unrecognized entries of a result row.
fn collect_json_extras(entries: &Vec<(String, JsonValue)>, known: &Vec<&'static str>) -> (r:
    Result<Vec<(String, Option<String>)>, BojError>)
    ensures
        match r {
            Ok(ex) => spec_collect_extras(entries@, known.deep_view()) == Ok::<
                Seq<(Seq<char>, Option<Seq<char>>)>,
                (),
            >(ex.deep_view()),
            Err(e) => spec_collect_extras(entries@, known.deep_view()) is Err && e matches
                BojError::DecodeError(_),
        },
{
    let mut r: Vec<(String, Option<String>)> = Vec::new();
    let n = entries.len();
    assert(r.deep_view() =~= Seq::<(Seq<char>, Option<Seq<char>>)>::empty());
    for i in 0..n
        invariant
            n == entries.len(),
            spec_collect_extras(entries@.take(i as int), known.deep_view()) == Ok::<
                Seq<(Seq<char>, Option<Seq<char>>)>,
                (),
            >(r.deep_view()),
    {
        proof {
            assert(entries@.take(i + 1).drop_last() =~= entries@.take(i as int));
            assert(entries@.take(i + 1)[i as int] == entries@[i as int]);
        }
        if !ci_key_in(known, entries[i].0.as_str()) {
            match value_to_scalar_string(&entries[i].1) {
                Err(e) => {
                    proof {
                        lemma_collect_extras_err(entries@, known.deep_view(), i + 1);
                    }
                    return Err(e);
                },
                Ok(value) => {
                    let ghost before = r.deep_view();
                    r.push((entries[i].0.clone(), value));
                    assert(r.deep_view() =~= before.push(
                        (entries@[i as int].0@, opt_view(r@[r@.len() - 1].1)),
                    ));
                },
            }
        }
    }
    assert(entries@.take(n as int) =~= entries@);
    Ok(r)
}

// ---------------------------------------------------------------------------
// Series rows
// ---------------------------------------------------------------------------
/// A required, non-blank scalar field of an object.
pub open spec fn spec_required_non_empty(
    entries: Seq<(String, JsonValue)>,
    key: Seq<char>,
) -> Result<Seq<char>, ()> {
    match spec_get_ci(entries, key) {
        None => Err(()),
        Some(v) => match spec_scalar_string(v) {
            Err(()) => Err(()),
            Ok(None) => Err(()),
            Ok(Some(t)) => match spec_normalize(t) {
                None => Err(()),
                Some(x) => Ok(x),
            },
        },
    }
}

/// Reads a required, non-blank scalar field of an object.
fn required_non_empty_string(entries: &Vec<(String, JsonValue)>, key: &str) -> (r: Result<
    String,
    BojError,
>)
    ensures
        match r {
            Ok(s) => spec_required_non_empty(entries@, key@) == Ok::<Seq<char>, ()>(s@),
            Err(e) => spec_required_non_empty(entries@, key@) is Err && e matches
                BojError::DecodeError(_),
        },
{
    let value = match get_ci(entries, key) {
        Some(v) => v,
        None => {
            return Err(
                BojError::DecodeError(String::from_str(key).concat(" is required")),
            );
        },
    };
    match value_to_scalar_string(value)? {
        None => Err(BojError::DecodeError(String::from_str(key).concat(" must not be empty"))),
        Some(t) => match normalize_optional(t.as_str()) {
            None => Err(
                BojError::DecodeError(String::from_str(key).concat(" must not be empty")),
            ),
            Some(x) => Ok(x),
        },
    }
}

/// The dedicated fields of a code or layer result row.
pub open spec fn series_known_keys() -> Seq<Seq<char>> {
    seq![
        "SERIES_CODE"@,
        "NAME_OF_TIME_SERIES_J"@,
        "NAME_OF_TIME_SERIES"@,
        "UNIT_J"@,
        "UNIT"@,
        "FREQUENCY"@,
        "CATEGORY_J"@,
        "CATEGORY"@,
        "LAST_UPDATE"@,
        "VALUES"@,
    ]
}

/// What one result row of a code or layer response means: a required
/// non-blank `SERIES_CODE`, the observations of its `VALUES` object,
/// normalized optional labels, and the unrecognized fields as extras.
pub open spec fn spec_series_row(v: JsonValue) -> Result<SeriesView, ()> {
    match v {
        JsonValue::Object(row) => match spec_required_non_empty(row@, "SERIES_CODE"@) {
            Err(()) => Err(()),
            Ok(code) => match spec_parse_points(row@) {
                Err(()) => Err(()),
                Ok(points) => match spec_collect_extras(row@, series_known_keys()) {
                    Err(()) => Err(()),
                    Ok(extras) => Ok(
                        SeriesView {
                            series_code: code,
                            name_of_time_series_j: norm_field(row@, "NAME_OF_TIME_SERIES_J"@),
                            name_of_time_series: norm_field(row@, "NAME_OF_TIME_SERIES"@),
                            unit_j: norm_field(row@, "UNIT_J"@),
                            unit: norm_field(row@, "UNIT"@),
                            frequency: norm_field(row@, "FREQUENCY"@),
                            category_j: norm_field(row@, "CATEGORY_J"@),
                            category: norm_field(row@, "CATEGORY"@),
                            last_update: norm_field(row@, "LAST_UPDATE"@),
                            points,
                            extras,
                        },
                    ),
                },
            },
        },
        _ => Err(()),
    }
}

/// The known-key list of a result row.
fn series_known_keys_exec() -> (r: Vec<&'static str>)
    ensures
        r.deep_view() == series_known_keys(),
{
    let mut known: Vec<&'static str> = Vec::new();
    known.push("SERIES_CODE");
    known.push("NAME_OF_TIME_SERIES_J");
    known.push("NAME_OF_TIME_SERIES");
    known.push("UNIT_J");
    known.push("UNIT");
    known.push("FREQUENCY");
    known.push("CATEGORY_J");
    known.push("CATEGORY");
    known.push("LAST_UPDATE");
    known.push("VALUES");
    assert(known.deep_view() =~= series_known_keys());
    known
}

/// A normalized optional field of an object.
fn norm_field_exec(entries: &Vec<(String, JsonValue)>, key: &str) -> (r: Option<String>)
    ensures
        opt_view(r) == norm_field(entries@, key@),
{
    match get_ci_string(entries, key) {
        Some(s) => normalize_optional(s.as_str()),
        None => None,
    }
}

/// Reads one result row of a by-code response.
pub fn parse_code_series_from_json_row(v: &JsonValue) -> (r: Result<CodeSeries, BojError>)
    ensures
        match r {
            Ok(s) => spec_series_row(*v) == Ok::<SeriesView, ()>(s@),
            Err(e) => spec_series_row(*v) is Err && e matches BojError::DecodeError(_),
        },
{
    let row = match v {
        JsonValue::Object(row) => row,
        _ => {
            return Err(BojError::decode("each RESULTSET element must be an object"));
        },
    };
    let series_code = required_non_empty_string(row, "SERIES_CODE")?;
    let points = parse_points_from_json_row(row)?;
    let known = series_known_keys_exec();
    let extras = collect_json_extras(row, &known)?;
    Ok(
        CodeSeries {
            series_code,
            name_of_time_series_j: norm_field_exec(row, "NAME_OF_TIME_SERIES_J"),
            name_of_time_series: norm_field_exec(row, "NAME_OF_TIME_SERIES"),
            unit_j: norm_field_exec(row, "UNIT_J"),
            unit: norm_field_exec(row, "UNIT"),
            frequency: norm_field_exec(row, "FREQUENCY"),
            category_j: norm_field_exec(row, "CATEGORY_J"),
            category: norm_field_exec(row, "CATEGORY"),
            last_update: norm_field_exec(row, "LAST_UPDATE"),
            points,
            extras,
        },
    )
}

/// Reads one result row of a by-layer response.
pub fn parse_layer_series_from_json_row(v: &JsonValue) -> (r: Result<LayerSeries, BojError>)
    ensures
        match r {
            Ok(s) => spec_series_row(*v) == Ok::<SeriesView, ()>(s@),
            Err(e) => spec_series_row(*v) is Err && e matches BojError::DecodeError(_),
        },
{
    let row = match v {
        JsonValue::Object(row) => row,
        _ => {
            return Err(BojError::decode("each RESULTSET element must be an object"));
        },
    };
    let series_code = required_non_empty_string(row, "SERIES_CODE")?;
    let points = parse_points_from_json_row(row)?;
    let known = series_known_keys_exec();
    let extras = collect_json_extras(row, &known)?;
    Ok(
        LayerSeries {
            series_code,
            name_of_time_series_j: norm_field_exec(row, "NAME_OF_TIME_SERIES_J"),
            name_of_time_series: norm_field_exec(row, "NAME_OF_TIME_SERIES"),
            unit_j: norm_field_exec(row, "UNIT_J"),
            unit: norm_field_exec(row, "UNIT"),
            frequency: norm_field_exec(row, "FREQUENCY"),
            category_j: norm_field_exec(row, "CATEGORY_J"),
            category: norm_field_exec(row, "CATEGORY"),
            last_update: norm_field_exec(row, "LAST_UPDATE"),
            points,
            extras,
        },
    )
}

/// The result rows of a response, decoded in order; the first failing row
/// fails the whole decode.
pub open spec fn spec_series_rows(rows: Seq<JsonValue>) -> Result<Seq<SeriesView>, ()>
    decreases rows.len(),
{
    if rows.len() == 0 {
        Ok(Seq::empty())
    } else {
        match spec_series_rows(rows.drop_last()) {
            Err(()) => Err(()),
            Ok(acc) => match spec_series_row(rows[rows.len() - 1]) {
                Err(()) => Err(()),
                Ok(s) => Ok(acc.push(s)),
            },
        }
    }
}

proof fn lemma_series_rows_err(rows: Seq<JsonValue>, j: int)
    requires
        0 <= j <= rows.len(),
        spec_series_rows(rows.take(j)) is Err,
    ensures
        spec_series_rows(rows) is Err,
    decreases rows.len() - j,
{
    if j < rows.len() {
        assert(rows.take(j + 1).drop_last() =~= rows.take(j));
        lemma_series_rows_err(rows, j + 1);
    } else {
        assert(rows.take(j) =~= rows);
    }
}

/// The series list of a document: a missing `RESULTSET` means zero results,
/// a non-array `RESULTSET` is an error.
pub open spec fn spec_series_list(root: Seq<(String, JsonValue)>) -> Result<
    Seq<SeriesView>,
    (),
> {
    match spec_get_ci(root, "RESULTSET"@) {
        None => Ok(Seq::empty()),
        Some(rs) => match rs {
            JsonValue::Array(rows) => spec_series_rows(rows@),
            _ => Err(()),
        },
    }
}

/// Reads the series list of a by-code document.
fn parse_code_series_from_json(root: &Vec<(String, JsonValue)>) -> (r: Result<
    Vec<CodeSeries>,
    BojError,
>)
    ensures
        match r {
            Ok(series) => spec_series_list(root@) == Ok::<Seq<SeriesView>, ()>(
                series.deep_view(),
            ),
            Err(e) => spec_series_list(root@) is Err && e matches BojError::DecodeError(_),
        },
{
    let rows = match get_ci(root, "RESULTSET") {
        None => {
            let r: Vec<CodeSeries> = Vec::new();
            assert(r.deep_view() =~= Seq::<SeriesView>::empty());
            return Ok(r);
        },
        Some(rs) => match rs {
            JsonValue::Array(rows) => rows,
            _ => {
                return Err(BojError::decode("RESULTSET must be an array"));
            },
        },
    };
    let n = rows.len();
    let mut series: Vec<CodeSeries> = Vec::new();
    assert(series.deep_view() =~= Seq::<SeriesView>::empty());
    for i in 0..n
        invariant
            n == rows.len(),
            spec_series_list(root@) == spec_series_rows(rows@),
            spec_series_rows(rows@.take(i as int)) == Ok::<Seq<SeriesView>, ()>(
                series.deep_view(),
            ),
    {
        proof {
            assert(rows@.take(i + 1).drop_last() =~= rows@.take(i as int));
            assert(rows@.take(i + 1)[i as int] == rows@[i as int]);
        }
        match parse_code_series_from_json_row(&rows[i]) {
            Err(e) => {
                proof {
                    lemma_series_rows_err(rows@, i + 1);
                }
                return Err(e);
            },
            Ok(s) => {
                let ghost before = series.deep_view();
                series.push(s);
                assert(series.deep_view() =~= before.push(series@[series@.len() - 1]@));
            },
        }
    }
    assert(rows@.take(n as int) =~= rows@);
    Ok(series)
}

/// Reads the series list of a by-layer document.
fn parse_layer_series_from_json(root: &Vec<(String, JsonValue)>) -> (r: Result<
    Vec<LayerSeries>,
    BojError,
>)
    ensures
        match r {
            Ok(series) => spec_series_list(root@) == Ok::<Seq<SeriesView>, ()>(
                series.deep_view(),
            ),
            Err(e) => spec_series_list(root@) is Err && e matches BojError::DecodeError(_),
        },
{
    let rows = match get_ci(root, "RESULTSET") {
        None => {
            let r: Vec<LayerSeries> = Vec::new();
            assert(r.deep_view() =~= Seq::<SeriesView>::empty());
            return Ok(r);
        },
        Some(rs) => match rs {
            JsonValue::Array(rows) => rows,
            _ => {
                return Err(BojError::decode("RESULTSET must be an array"));
            },
        },
    };
    let n = rows.len();
    let mut series: Vec<LayerSeries> = Vec::new();
    assert(series.deep_view() =~= Seq::<SeriesView>::empty());
    for i in 0..n
        invariant
            n == rows.len(),
            spec_series_list(root@) == spec_series_rows(rows@),
            spec_series_rows(rows@.take(i as int)) == Ok::<Seq<SeriesView>, ()>(
                series.deep_view(),
            ),
    {
        proof {
            assert(rows@.take(i + 1).drop_last() =~= rows@.take(i as int));
            assert(rows@.take(i + 1)[i as int] == rows@[i as int]);
        }
        match parse_layer_series_from_json_row(&rows[i]) {
            Err(e) => {
                proof {
                    lemma_series_rows_err(rows@, i + 1);
                }
                return Err(e);
            },
            Ok(s) => {
                let ghost before = series.deep_view();
                series.push(s);
                assert(series.deep_view() =~= before.push(series@[series@.len() - 1]@));
            },
        }
    }
    assert(rows@.take(n as int) =~= rows@);
    Ok(series)
}

// ---------------------------------------------------------------------------
// Document-level decoding
// ---------------------------------------------------------------------------
/// What a by-code document decodes to.
pub open spec fn spec_decode_code_doc(text: Seq<char>, doc: JsonValue) -> Result<
    CodeResponseView,
    (),
> {
    match doc {
        JsonValue::Object(root) => match spec_parse_meta(root@) {
            Err(()) => Err(()),
            Ok(meta) => match spec_value_string_map(spec_get_ci(root@, "PARAMETER"@)) {
                Err(()) => Err(()),
                Ok(pm) => match spec_code_echo(pm) {
                    Err(()) => Err(()),
                    Ok(parameter) => match spec_next_position_json(root@) {
                        Err(()) => Err(()),
                        Ok(next_position) => match spec_series_list(root@) {
                            Err(()) => Err(()),
                            Ok(series) => Ok(
                                CodeResponseView {
                                    meta,
                                    parameter,
                                    next_position,
                                    series,
                                    raw: text,
                                },
                            ),
                        },
                    },
                },
            },
        },
        _ => Err(()),
    }
}

/// Decodes one parsed by-code document against the raw text it came from.
pub fn decode_code_document(text: String, doc: &JsonValue) -> (r: Result<
    CodeResponse,
    BojError,
>)
    ensures
        match r {
            Ok(resp) => spec_decode_code_doc(text@, *doc) == Ok::<CodeResponseView, ()>(
                resp@,
            ),
            Err(e) => spec_decode_code_doc(text@, *doc) is Err && e matches
                BojError::DecodeError(_),
        },
{
    let root = match doc {
        JsonValue::Object(root) => root,
        _ => {
            return Err(BojError::decode("top-level JSON object is required"));
        },
    };
    let meta = parse_meta_from_json_object(root)?;
    let pm = value_to_string_map(get_ci(root, "PARAMETER"))?;
    let parameter = parse_code_parameter_map(&pm)?;
    let next_position = parse_next_position_from_json(root)?;
    let series = parse_code_series_from_json(root)?;
    Ok(CodeResponse { meta, parameter, next_position, series, raw: text })
}

/// What by-code bytes decode to as a structured document: they must be valid
/// UTF-8 and parse as one document.
pub open spec fn spec_decode_code_json(bytes: Seq<u8>) -> Result<CodeResponseView, ()> {
    if !valid_utf8(bytes) {
        Err(())
    } else {
        match json_document_of(decode_utf8(bytes)) {
            None => Err(()),
            Some(doc) => spec_decode_code_doc(decode_utf8(bytes), doc),
        }
    }
}

/// Decodes a by-code payload as a structured document.
pub fn decode_code_json(bytes: &[u8]) -> (r: Result<CodeResponse, BojError>)
    ensures
        match r {
            Ok(resp) => spec_decode_code_json(bytes@) == Ok::<CodeResponseView, ()>(resp@),
            Err(e) => spec_decode_code_json(bytes@) is Err && e matches
                BojError::DecodeError(_),
        },
{
    let text = match utf8_text(bytes) {
        Some(t) => t,
        None => {
            return Err(BojError::decode("invalid UTF-8 JSON payload"));
        },
    };
    let doc = match parse_json_document(text.as_str()) {
        Some(d) => d,
        None => {
            return Err(BojError::decode("invalid JSON payload"));
        },
    };
    decode_code_document(text, &doc)
}

/// What a by-layer document decodes to.
pub open spec fn spec_decode_layer_doc(text: Seq<char>, doc: JsonValue) -> Result<
    LayerResponseView,
    (),
> {
    match doc {
        JsonValue::Object(root) => match spec_parse_meta(root@) {
            Err(()) => Err(()),
            Ok(meta) => match spec_value_string_map(spec_get_ci(root@, "PARAMETER"@)) {
                Err(()) => Err(()),
                Ok(pm) => match spec_layer_echo(pm) {
                    Err(()) => Err(()),
                    Ok(parameter) => match spec_next_position_json(root@) {
                        Err(()) => Err(()),
                        Ok(next_position) => match spec_series_list(root@) {
                            Err(()) => Err(()),
                            Ok(series) => Ok(
                                LayerResponseView {
                                    meta,
                                    parameter,
                                    next_position,
                                    series,
                                    raw: text,
                                },
                            ),
                        },
                    },
                },
            },
        },
        _ => Err(()),
    }
}

/// Decodes one parsed by-layer document against the raw text it came from.
pub fn decode_layer_document(text: String, doc: &JsonValue) -> (r: Result<
    LayerResponse,
    BojError,
>)
    ensures
        match r {
            Ok(resp) => spec_decode_layer_doc(text@, *doc) == Ok::<LayerResponseView, ()>(
                resp@,
            ),
            Err(e) => spec_decode_layer_doc(text@, *doc) is Err && e matches
                BojError::DecodeError(_),
        },
{
    let root = match doc {
        JsonValue::Object(root) => root,
        _ => {
            return Err(BojError::decode("top-level JSON object is required"));
        },
    };
    let meta = parse_meta_from_json_object(root)?;
    let pm = value_to_string_map(get_ci(root, "PARAMETER"))?;
    let parameter = parse_layer_parameter_map(&pm)?;
    let next_position = parse_next_position_from_json(root)?;
    let series = parse_layer_series_from_json(root)?;
    Ok(LayerResponse { meta, parameter, next_position, series, raw: text })
}

/// What by-layer bytes decode to as a structured document.
pub open spec fn spec_decode_layer_json(bytes: Seq<u8>) -> Result<LayerResponseView, ()> {
    if !valid_utf8(bytes) {
        Err(())
    } else {
        match json_document_of(decode_utf8(bytes)) {
            None => Err(()),
            Some(doc) => spec_decode_layer_doc(decode_utf8(bytes), doc),
        }
    }
}

/// Decodes a by-layer payload as a structured document.
pub fn decode_layer_json(bytes: &[u8]) -> (r: Result<LayerResponse, BojError>)
    ensures
        match r {
            Ok(resp) => spec_decode_layer_json(bytes@) == Ok::<LayerResponseView, ()>(resp@),
            Err(e) => spec_decode_layer_json(bytes@) is Err && e matches
                BojError::DecodeError(_),
        },
{
    let text = match utf8_text(bytes) {
        Some(t) => t,
        None => {
            return Err(BojError::decode("invalid UTF-8 JSON payload"));
        },
    };
    let doc = match parse_json_document(text.as_str()) {
        Some(d) => d,
        None => {
            return Err(BojError::decode("invalid JSON payload"));
        },
    };
    decode_layer_document(text, &doc)
}

// ---------------------------------------------------------------------------
// Metadata documents
// ---------------------------------------------------------------------------
/// The dedicated fields of a metadata result row.
pub open spec fn metadata_known_keys() -> Seq<Seq<char>> {
    seq![
        "SERIES_CODE"@,
        "NAME_OF_TIME_SERIES_J"@,
        "NAME_OF_TIME_SERIES"@,
        "UNIT_J"@,
        "UNIT"@,
        "FREQUENCY"@,
        "CATEGORY_J"@,
        "CATEGORY"@,
        "LAYER1"@,
        "LAYER2"@,
        "LAYER3"@,
        "LAYER4"@,
        "LAYER5"@,
        "START_OF_THE_TIME_SERIES"@,
        "END_OF_THE_TIME_SERIES"@,
        "LAST_UPDATE"@,
        "NOTES_J"@,
        "NOTES"@,
    ]
}

/// An optional numeric field of an object.
pub open spec fn spec_opt_u32_field(
    entries: Seq<(String, JsonValue)>,
    key: Seq<char>,
) -> Result<Option<u32>, ()> {
    match spec_get_ci(entries, key) {
        None => Ok(None),
        Some(v) => match spec_scalar_string(v) {
            Err(()) => Err(()),
            Ok(o) => spec_opt_u32_from_text(o),
        },
    }
}

/// Reads an optional numeric field of an object.
fn opt_u32_field(entries: &Vec<(String, JsonValue)>, key: &str) -> (r: Result<
    Option<u32>,
    BojError,
>)
    ensures
        match r {
            Ok(n) => spec_opt_u32_field(entries@, key@) == Ok::<Option<u32>, ()>(n),
            Err(e) => spec_opt_u32_field(entries@, key@) is Err && e matches
                BojError::DecodeError(_),
        },
{
    match get_ci(entries, key) {
        None => Ok(None),
        Some(v) => {
            let text = value_to_scalar_string(v)?;
            parse_optional_u32_from_text(
                match &text {
                    Some(s) => Some(s.as_str()),
                    None => None,
                },
                key,
            )
        },
    }
}

/// What one metadata result row means: every field optional, the five layer
/// indices numeric, the unrecognized fields kept as extras.
pub open spec fn spec_metadata_row(v: JsonValue) -> Result<MetadataEntryView, ()> {
    match v {
        JsonValue::Object(row) => match (
            spec_opt_u32_field(row@, "LAYER1"@),
            spec_opt_u32_field(row@, "LAYER2"@),
            spec_opt_u32_field(row@, "LAYER3"@),
            spec_opt_u32_field(row@, "LAYER4"@),
            spec_opt_u32_field(row@, "LAYER5"@),
            spec_collect_extras(row@, metadata_known_keys()),
        ) {
            (Ok(layer1), Ok(layer2), Ok(layer3), Ok(layer4), Ok(layer5), Ok(extras)) => Ok(
                MetadataEntryView {
                    series_code: norm_field(row@, "SERIES_CODE"@),
                    name_of_time_series_j: norm_field(row@, "NAME_OF_TIME_SERIES_J"@),
                    name_of_time_series: norm_field(row@, "NAME_OF_TIME_SERIES"@),
                    unit_j: norm_field(row@, "UNIT_J"@),
                    unit: norm_field(row@, "UNIT"@),
                    frequency: norm_field(row@, "FREQUENCY"@),
                    category_j: norm_field(row@, "CATEGORY_J"@),
                    category: norm_field(row@, "CATEGORY"@),
                    layer1,
                    layer2,
                    layer3,
                    layer4,
                    layer5,
                    start_of_the_time_series: norm_field(row@, "START_OF_THE_TIME_SERIES"@),
                    end_of_the_time_series: norm_field(row@, "END_OF_THE_TIME_SERIES"@),
                    last_update: norm_field(row@, "LAST_UPDATE"@),
                    notes_j: norm_field(row@, "NOTES_J"@),
                    notes: norm_field(row@, "NOTES"@),
                    extras,
                },
            ),
            _ => Err(()),
        },
        _ => Err(()),
    }
}

/// Reads one metadata result row.
pub fn parse_metadata_entry_from_json_row(v: &JsonValue) -> (r: Result<
    MetadataEntry,
    BojError,
>)
    ensures
        match r {
            Ok(entry) => spec_metadata_row(*v) == Ok::<MetadataEntryView, ()>(entry@),
            Err(e) => spec_metadata_row(*v) is Err && e matches BojError::DecodeError(_),
        },
{
    let row = match v {
        JsonValue::Object(row) => row,
        _ => {
            return Err(BojError::decode("each RESULTSET element must be an object"));
        },
    };
    let layer1 = opt_u32_field(row, "LAYER1")?;
    let layer2 = opt_u32_field(row, "LAYER2")?;
    let layer3 = opt_u32_field(row, "LAYER3")?;
    let layer4 = opt_u32_field(row, "LAYER4")?;
    let layer5 = opt_u32_field(row, "LAYER5")?;
    let mut known: Vec<&'static str> = Vec::new();
    known.push("SERIES_CODE");
    known.push("NAME_OF_TIME_SERIES_J");
    known.push("NAME_OF_TIME_SERIES");
    known.push("UNIT_J");
    known.push("UNIT");
    known.push("FREQUENCY");
    known.push("CATEGORY_J");
    known.push("CATEGORY");
    known.push("LAYER1");
    known.push("LAYER2");
    known.push("LAYER3");
    known.push("LAYER4");
    known.push("LAYER5");
    known.push("START_OF_THE_TIME_SERIES");
    known.push("END_OF_THE_TIME_SERIES");
    known.push("LAST_UPDATE");
    known.push("NOTES_J");
    known.push("NOTES");
    assert(known.deep_view() =~= metadata_known_keys());
    let extras = collect_json_extras(row, &known)?;
    Ok(
        MetadataEntry {
            series_code: norm_field_exec(row, "SERIES_CODE"),
            name_of_time_series_j: norm_field_exec(row, "NAME_OF_TIME_SERIES_J"),
            name_of_time_series: norm_field_exec(row, "NAME_OF_TIME_SERIES"),
            unit_j: norm_field_exec(row, "UNIT_J"),
            unit: norm_field_exec(row, "UNIT"),
            frequency: norm_field_exec(row, "FREQUENCY"),
            category_j: norm_field_exec(row, "CATEGORY_J"),
            category: norm_field_exec(row, "CATEGORY"),
            layer1,
            layer2,
            layer3,
            layer4,
            layer5,
            start_of_the_time_series: norm_field_exec(row, "START_OF_THE_TIME_SERIES"),
            end_of_the_time_series: norm_field_exec(row, "END_OF_THE_TIME_SERIES"),
            last_update: norm_field_exec(row, "LAST_UPDATE"),
            notes_j: norm_field_exec(row, "NOTES_J"),
            notes: norm_field_exec(row, "NOTES"),
            extras,
        },
    )
}

/// The metadata rows of a response, decoded in order.
pub open spec fn spec_metadata_rows(rows: Seq<JsonValue>) -> Result<Seq<MetadataEntryView>, ()>
    decreases rows.len(),
{
    if rows.len() == 0 {
        Ok(Seq::empty())
    } else {
        match spec_metadata_rows(rows.drop_last()) {
            Err(()) => Err(()),
            Ok(acc) => match spec_metadata_row(rows[rows.len() - 1]) {
                Err(()) => Err(()),
                Ok(entry) => Ok(acc.push(entry)),
            },
        }
    }
}

proof fn lemma_metadata_rows_err(rows: Seq<JsonValue>, j: int)
    requires
        0 <= j <= rows.len(),
        spec_metadata_rows(rows.take(j)) is Err,
    ensures
        spec_metadata_rows(rows) is Err,
    decreases rows.len() - j,
{
    if j < rows.len() {
        assert(rows.take(j + 1).drop_last() =~= rows.take(j));
        lemma_metadata_rows_err(rows, j + 1);
    } else {
        assert(rows.take(j) =~= rows);
    }
}

/// What a metadata document decodes to: shared metadata, the `DB` code (or
/// empty), and the entry list.
pub open spec fn spec_decode_metadata_doc(text: Seq<char>, doc: JsonValue) -> Result<
    MetadataResponseView,
    (),
> {
    match doc {
        JsonValue::Object(root) => match spec_parse_meta(root@) {
            Err(()) => Err(()),
            Ok(meta) => {
                let db = field_or_empty(root@, "DB"@);
                match spec_get_ci(root@, "RESULTSET"@) {
                    None => Ok(
                        MetadataResponseView { meta, db, entries: Seq::empty(), raw: text },
                    ),
                    Some(rs) => match rs {
                        JsonValue::Array(rows) => match spec_metadata_rows(rows@) {
                            Err(()) => Err(()),
                            Ok(entries) => Ok(
                                MetadataResponseView { meta, db, entries, raw: text },
                            ),
                        },
                        _ => Err(()),
                    },
                }
            },
        },
        _ => Err(()),
    }
}

/// Decodes one parsed metadata document against the raw text it came from.
#[verifier::rlimit(50)]
pub fn decode_metadata_document(text: String, doc: &JsonValue) -> (r: Result<
    MetadataResponse,
    BojError,
>)
    ensures
        match r {
            Ok(resp) => spec_decode_metadata_doc(text@, *doc) == Ok::<
                MetadataResponseView,
                (),
            >(resp@),
            Err(e) => spec_decode_metadata_doc(text@, *doc) is Err && e matches
                BojError::DecodeError(_),
        },
{
    let root = match doc {
        JsonValue::Object(root) => root,
        _ => {
            return Err(BojError::decode("top-level JSON object is required"));
        },
    };
    let meta = parse_meta_from_json_object(root)?;
    let db = match get_ci_string(root, "DB") {
        Some(s) => s,
        None => String::new(),
    };
    let rows = match get_ci(root, "RESULTSET") {
        None => {
            let entries: Vec<MetadataEntry> = Vec::new();
            assert(entries.deep_view() =~= Seq::<MetadataEntryView>::empty());
            return Ok(MetadataResponse { meta, db, entries, raw: text });
        },
        Some(rs) => match rs {
            JsonValue::Array(rows) => rows,
            _ => {
                return Err(BojError::decode("RESULTSET must be an array"));
            },
        },
    };
    let n = rows.len();
    let mut entries: Vec<MetadataEntry> = Vec::new();
    assert(entries.deep_view() =~= Seq::<MetadataEntryView>::empty());
    for i in 0..n
        invariant
            n == rows.len(),
            spec_metadata_rows(rows@) is Err ==> spec_decode_metadata_doc(text@, *doc) is Err,
            spec_metadata_rows(rows@.take(i as int)) == Ok::<Seq<MetadataEntryView>, ()>(
                entries.deep_view(),
            ),
    {
        proof {
            assert(rows@.take(i + 1).drop_last() =~= rows@.take(i as int));
            assert(rows@.take(i + 1)[i as int] == rows@[i as int]);
        }
        match parse_metadata_entry_from_json_row(&rows[i]) {
            Err(e) => {
                proof {
                    lemma_metadata_rows_err(rows@, i + 1);
                }
                return Err(e);
            },
            Ok(entry) => {
                let ghost before = entries.deep_view();
                entries.push(entry);
                assert(entries.deep_view() =~= before.push(entries@[entries@.len() - 1]@));
            },
        }
    }
    assert(rows@.take(n as int) =~= rows@);
    Ok(MetadataResponse { meta, db, entries, raw: text })
}

/// What metadata bytes decode to as a structured document.
pub open spec fn spec_decode_metadata_json(bytes: Seq<u8>) -> Result<MetadataResponseView, ()> {
    if !valid_utf8(bytes) {
        Err(())
    } else {
        match json_document_of(decode_utf8(bytes)) {
            None => Err(()),
            Some(doc) => spec_decode_metadata_doc(decode_utf8(bytes), doc),
        }
    }
}

/// Decodes a metadata payload as a structured document.
pub fn decode_metadata_json(bytes: &[u8]) -> (r: Result<MetadataResponse, BojError>)
    ensures
        match r {
            Ok(resp) => spec_decode_metadata_json(bytes@) == Ok::<MetadataResponseView, ()>(
                resp@,
            ),
            Err(e) => spec_decode_metadata_json(bytes@) is Err && e matches
                BojError::DecodeError(_),
        },
{
    let text = match utf8_text(bytes) {
        Some(t) => t,
        None => {
            return Err(BojError::decode("invalid UTF-8 JSON payload"));
        },
    };
    let doc = match parse_json_document(text.as_str()) {
        Some(d) => d,
        None => {
            return Err(BojError::decode("invalid JSON payload"));
        },
    };
    decode_metadata_document(text, &doc)
}

} // verus!
