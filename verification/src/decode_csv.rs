//! The tabular-format decoder: sectioned rows are grouped into series — one
//! group per distinct combination of all columns except the survey-date and
//! value columns, in first-seen order — and each group's rows become that
//! series' ordered observations.

use vstd::prelude::*;

use crate::csv_data::{
    cell_or_empty, decode_csv_text, empty_payload, norm_rows, parse_csv_payload,
    parse_csv_records, section_rows, spec_decode_csv_text, csv_parses, csv_rows_of, CsvPayload,
    CsvPayloadView,
};
use crate::decode_common::{
    assoc_lookup, assoc_lookup_string, parse_code_parameter_map, parse_layer_parameter_map,
    spec_code_echo, spec_layer_echo,
};
use crate::error::BojError;
use crate::json::{
    normalize_optional, parse_next_position_from_text, parse_optional_u32_from_text,
    spec_next_position, spec_normalize, spec_opt_u32_from_text,
};
use crate::model::{
    opt_view, CodeResponse, CodeResponseView, CodeSeries, DataPoint, DataPointView,
    LayerResponse, LayerResponseView, LayerSeries, MetadataEntry, MetadataEntryView,
    MetadataResponse, MetadataResponseView, ResponseMeta, ResponseMetaView, SeriesView,
};
use crate::options::CsvEncoding;
use crate::text::{
    all_ws, ci_equal, eq_ignore_case, is_blank, parse_u16_str, spec_parse_u16, spec_trim,
    str_eq, trim_str, upper_seq, upper_string,
};

verus! {

// ---------------------------------------------------------------------------
// Header lookup and cells
// ---------------------------------------------------------------------------
/// The column index of a header name, compared after trimming and
/// upper-casing; with duplicate names the last column wins.
pub open spec fn header_index(header: Seq<Seq<char>>, name: Seq<char>) -> Option<int>
    decreases header.len(),
{
    if header.len() == 0 {
        None
    } else if upper_seq(spec_trim(header[header.len() - 1])) == name {
        Some(header.len() - 1)
    } else {
        header_index(header.drop_last(), name)
    }
}

/// The column index of a header name.
pub fn find_header_index(header: &Vec<String>, name: &str) -> (r: Option<usize>)
    ensures
        match r {
            Some(i) => header_index(header.deep_view(), name@) == Some(i as int),
            None => header_index(header.deep_view(), name@) is None,
        },
{
    let ghost hs = header.deep_view();
    let mut j = header.len();
    assert(hs.take(j as int) =~= hs);
    while j > 0
        invariant
            hs == header.deep_view(),
            j <= header.len(),
            header_index(hs, name@) == header_index(hs.take(j as int), name@),
        decreases j,
    {
        proof {
            assert(hs.take(j as int)[j - 1] == hs[j - 1]);
            assert(hs.take(j as int).drop_last() =~= hs.take(j - 1));
        }
        let candidate = upper_string(trim_str(header[j - 1].as_str()).as_str());
        if str_eq(candidate.as_str(), name) {
            return Some(j - 1);
        }
        j = j - 1;
    }
    assert(hs.take(0) =~= Seq::<Seq<char>>::empty());
    None
}

/// The cell at an index, or empty when the row is shorter.
fn get_cell(row: &Vec<String>, j: usize) -> (r: String)
    ensures
        r@ == cell_or_empty(row.deep_view(), j as int),
{
    if j < row.len() {
        row[j].clone()
    } else {
        String::new()
    }
}

/// An optional cell of a data row, found by header name and normalized.
pub open spec fn spec_csv_optional_cell(
    header: Seq<Seq<char>>,
    row: Seq<Seq<char>>,
    name: Seq<char>,
) -> Option<Seq<char>> {
    match header_index(header, name) {
        None => None,
        Some(i) => spec_normalize(cell_or_empty(row, i)),
    }
}

/// Reads an optional cell of a data row by header name.
pub fn csv_optional_cell(header: &Vec<String>, row: &Vec<String>, name: &str) -> (r: Option<
    String,
>)
    ensures
        opt_view(r) == spec_csv_optional_cell(header.deep_view(), row.deep_view(), name@),
{
    match find_header_index(header, name) {
        None => None,
        Some(i) => {
            let cell = get_cell(row, i);
            normalize_optional(cell.as_str())
        },
    }
}

/// Reads a required, non-blank cell of a data row by header name.
fn csv_required_cell(header: &Vec<String>, row: &Vec<String>, name: &str) -> (r: Result<
    String,
    BojError,
>)
    ensures
        match r {
            Ok(s) => spec_csv_optional_cell(header.deep_view(), row.deep_view(), name@)
                == Some(s@),
            Err(e) => spec_csv_optional_cell(header.deep_view(), row.deep_view(), name@)
                is None && e matches BojError::DecodeError(_),
        },
{
    match csv_optional_cell(header, row, name) {
        Some(s) => Ok(s),
        None => Err(BojError::DecodeError(String::from_str(name).concat(" must not be empty"))),
    }
}

/// An optional numeric cell of a data row.
pub open spec fn spec_csv_u32_cell(
    header: Seq<Seq<char>>,
    row: Seq<Seq<char>>,
    name: Seq<char>,
) -> Result<Option<u32>, ()> {
    spec_opt_u32_from_text(spec_csv_optional_cell(header, row, name))
}

/// Reads an optional numeric cell of a data row.
fn csv_optional_u32_cell(header: &Vec<String>, row: &Vec<String>, name: &str) -> (r: Result<
    Option<u32>,
    BojError,
>)
    ensures
        match r {
            Ok(n) => spec_csv_u32_cell(header.deep_view(), row.deep_view(), name@) == Ok::<
                Option<u32>,
                (),
            >(n),
            Err(e) => spec_csv_u32_cell(header.deep_view(), row.deep_view(), name@) is Err
                && e matches BojError::DecodeError(_),
        },
{
    let value = csv_optional_cell(header, row, name);
    let r = parse_optional_u32_from_text(
        match &value {
            Some(s) => Some(s.as_str()),
            None => None,
        },
        name,
    );
    proof {
        let hs = header.deep_view();
        let rs = row.deep_view();
        if spec_csv_optional_cell(hs, rs, name@) is Some {
            let i = header_index(hs, name@)->Some_0;
            crate::text::lemma_trim_props(cell_or_empty(rs, i));
        }
    }
    r
}

/// The unrecognized columns of a data row: header names not in the known
/// list, with the row's normalized cell, in header order.
pub open spec fn spec_csv_extras(
    header: Seq<Seq<char>>,
    row: Seq<Seq<char>>,
    known: Seq<Seq<char>>,
) -> Seq<(Seq<char>, Option<Seq<char>>)>
    decreases header.len(),
{
    if header.len() == 0 {
        Seq::empty()
    } else {
        let rest = spec_csv_extras(header.drop_last(), row, known);
        let i = header.len() - 1;
        if crate::decode_json::ci_member(known, header[i]) {
            rest
        } else {
            rest.push((header[i], spec_normalize(cell_or_empty(row, i))))
        }
    }
}

/// Whether the key equals some member of the list, ASCII case-insensitively.
fn ci_key_in(known: &Vec<&'static str>, key: &str) -> (r: bool)
    ensures
        r == crate::decode_json::ci_member(known.deep_view(), key@),
{
    let n = known.len();
    for i in 0..n
        invariant
            n == known.len(),
            forall|j: int| 0 <= j < i ==> !ci_equal(#[trigger] known.deep_view()[j], key@),
    {
        if eq_ignore_case(known[i], key) {
            assert(ci_equal(known.deep_view()[i as int], key@));
            return true;
        }
    }
    false
}

/// Collects the unrecognized columns of a data row.
fn csv_collect_extras(header: &Vec<String>, row: &Vec<String>, known: &Vec<&'static str>) -> (r:
    Vec<(String, Option<String>)>)
    ensures
        r.deep_view() == spec_csv_extras(header.deep_view(), row.deep_view(), known.deep_view()),
{
    let ghost hs = header.deep_view();
    let mut r: Vec<(String, Option<String>)> = Vec::new();
    let n = header.len();
    assert(r.deep_view() =~= Seq::<(Seq<char>, Option<Seq<char>>)>::empty());
    for i in 0..n
        invariant
            n == header.len(),
            hs == header.deep_view(),
            r.deep_view() == spec_csv_extras(
                hs.take(i as int),
                row.deep_view(),
                known.deep_view(),
            ),
    {
        proof {
            assert(hs.take(i + 1).drop_last() =~= hs.take(i as int));
            assert(hs.take(i + 1)[i as int] == hs[i as int]);
        }
        if !ci_key_in(known, header[i].as_str()) {
            let cell = get_cell(row, i);
            let value = normalize_optional(cell.as_str());
            let ghost before = r.deep_view();
            r.push((header[i].clone(), value));
            assert(r.deep_view() =~= before.push((hs[i as int], opt_view(r@[r@.len() - 1].1))));
        }
    }
    assert(hs.take(n as int) =~= hs);
    r
}

// ---------------------------------------------------------------------------
// Row grouping
// ---------------------------------------------------------------------------
/// One row group while grouping: its identity key, the first row seen with
/// that key, and the observations accumulated in row order.
pub ghost struct GroupView {
    /// The identity key: all cells except the survey-date and value columns.
    pub key: Seq<Seq<char>>,
    /// The first row seen with this key.
    pub first_row: Seq<Seq<char>>,
    /// The observations accumulated in row order.
    pub points: Seq<DataPointView>,
}

/// One row group while grouping.
pub struct CsvGroup {
    /// The identity key: all cells except the survey-date and value columns.
    pub key: Vec<String>,
    /// The first row seen with this key.
    pub first_row: Vec<String>,
    /// The observations accumulated in row order.
    pub points: Vec<DataPoint>,
}

impl View for CsvGroup {
    type V = GroupView;

    open spec fn view(&self) -> GroupView {
        GroupView {
            key: self.key.deep_view(),
            first_row: self.first_row.deep_view(),
            points: self.points.deep_view(),
        }
    }
}

impl DeepView for CsvGroup {
    type V = GroupView;

    open spec fn deep_view(&self) -> GroupView {
        self.view()
    }
}

/// The identity key of a data row: its first `ncols` cells, skipping the
/// survey-date and value columns.
pub open spec fn group_key(row: Seq<Seq<char>>, ncols: int, sui: int, vi: int) -> Seq<
    Seq<char>,
>
    decreases ncols,
{
    if ncols <= 0 {
        Seq::empty()
    } else {
        let rest = group_key(row, ncols - 1, sui, vi);
        if ncols - 1 == sui || ncols - 1 == vi {
            rest
        } else {
            rest.push(cell_or_empty(row, ncols - 1))
        }
    }
}

/// Builds the identity key of a data row.
fn group_key_exec(row: &Vec<String>, ncols: usize, sui: usize, vi: usize) -> (r: Vec<String>)
    ensures
        r.deep_view() == group_key(row.deep_view(), ncols as int, sui as int, vi as int),
{
    let mut r: Vec<String> = Vec::new();
    assert(r.deep_view() =~= Seq::<Seq<char>>::empty());
    for c in 0..ncols
        invariant
            r.deep_view() == group_key(row.deep_view(), c as int, sui as int, vi as int),
    {
        if c != sui && c != vi {
            let ghost before = r.deep_view();
            let cell = get_cell(row, c);
            r.push(cell);
            assert(r.deep_view() =~= before.push(r@[r@.len() - 1]@));
        }
    }
    r
}

/// First group with the key, in insertion order.
pub open spec fn find_group(gs: Seq<GroupView>, key: Seq<Seq<char>>) -> Option<int>
    decreases gs.len(),
{
    if gs.len() == 0 {
        None
    } else if gs[0].key == key {
        Some(0)
    } else {
        match find_group(gs.drop_first(), key) {
            Some(i) => Some(i + 1),
            None => None,
        }
    }
}

/// Whether two string lists are equal.
fn string_vec_eq(a: &Vec<String>, b: &Vec<String>) -> (r: bool)
    ensures
        r == (a.deep_view() == b.deep_view()),
{
    if a.len() != b.len() {
        assert(a.deep_view().len() != b.deep_view().len());
        return false;
    }
    let n = a.len();
    for i in 0..n
        invariant
            n == a.len(),
            n == b.len(),
            forall|j: int| 0 <= j < i ==> #[trigger] a.deep_view()[j] == b.deep_view()[j],
    {
        if !str_eq(a[i].as_str(), b[i].as_str()) {
            assert(a.deep_view()[i as int] != b.deep_view()[i as int]);
            return false;
        }
        assert(a.deep_view()[i as int] == b.deep_view()[i as int]);
    }
    assert(a.deep_view() =~= b.deep_view());
    true
}

proof fn lemma_find_group_skip(gs: Seq<GroupView>, key: Seq<Seq<char>>, i: int)
    requires
        0 <= i <= gs.len(),
        forall|j: int| 0 <= j < i ==> (#[trigger] gs[j]).key != key,
    ensures
        find_group(gs, key) == match find_group(gs.skip(i), key) {
            Some(j) => Some(i + j),
            None => None::<int>,
        },
    decreases i,
{
    if i == 0 {
        assert(gs.skip(0) =~= gs);
    } else {
        assert(gs[0].key != key);
        assert(forall|j: int|
            0 <= j < i - 1 ==> (#[trigger] gs.drop_first()[j]).key != key) by {
            assert(forall|j: int|
                0 <= j < i - 1 ==> gs.drop_first()[j] == #[trigger] gs[j + 1]);
        }
        lemma_find_group_skip(gs.drop_first(), key, i - 1);
        assert(gs.drop_first().skip(i - 1) =~= gs.skip(i));
    }
}

/// With no key match anywhere, the group search comes up empty.
pub proof fn lemma_find_group_none(gs: Seq<GroupView>, key: Seq<Seq<char>>)
    requires
        forall|j: int| 0 <= j < gs.len() ==> (#[trigger] gs[j]).key != key,
    ensures
        find_group(gs, key) is None,
{
    lemma_find_group_skip(gs, key, gs.len() as int);
    assert(gs.skip(gs.len() as int).len() == 0);
}

/// First group with the key.
fn find_group_exec(groups: &Vec<CsvGroup>, key: &Vec<String>) -> (r: Option<usize>)
    ensures
        match r {
            Some(i) => i < groups.len() && find_group(groups.deep_view(), key.deep_view())
                == Some(i as int),
            None => find_group(groups.deep_view(), key.deep_view()) is None,
        },
{
    let ghost gs = groups.deep_view();
    let n = groups.len();
    for i in 0..n
        invariant
            n == groups.len(),
            gs == groups.deep_view(),
            forall|j: int| 0 <= j < i ==> (#[trigger] gs[j]).key != key.deep_view(),
    {
        if string_vec_eq(&groups[i].key, key) {
            proof {
                assert(gs[i as int].key == key.deep_view());
                lemma_find_group_skip(gs, key.deep_view(), i as int);
                assert(gs.skip(i as int)[0] == gs[i as int]);
            }
            return Some(i);
        }
        assert(gs[i as int].key != key.deep_view());
    }
    proof {
        lemma_find_group_skip(gs, key.deep_view(), n as int);
        assert(gs.skip(n as int).len() == 0);
    }
    None
}

/// Adds one data row to the groups: the series-code cell must not be blank
/// and the survey-date cell must normalize to something; the value cell may
/// be blank (a missing observation). A row joins the first group whose key
/// matches, else it opens a new group.
pub open spec fn add_row(
    gs: Seq<GroupView>,
    row: Seq<Seq<char>>,
    ncols: int,
    si: int,
    sui: int,
    vi: int,
) -> Result<Seq<GroupView>, ()> {
    if all_ws(cell_or_empty(row, si)) {
        Err(())
    } else {
        match spec_normalize(cell_or_empty(row, sui)) {
            None => Err(()),
            Some(survey) => {
                let value = spec_normalize(cell_or_empty(row, vi));
                let p = DataPointView { survey_date: survey, value };
                let key = group_key(row, ncols, sui, vi);
                match find_group(gs, key) {
                    Some(g) => Ok(
                        gs.update(
                            g,
                            GroupView {
                                key: gs[g].key,
                                first_row: gs[g].first_row,
                                points: gs[g].points.push(p),
                            },
                        ),
                    ),
                    None => Ok(gs.push(GroupView { key, first_row: row, points: seq![p] })),
                }
            },
        }
    }
}

/// The groups the data rows form, in first-seen key order.
pub open spec fn group_rows(
    rows: Seq<Seq<Seq<char>>>,
    ncols: int,
    si: int,
    sui: int,
    vi: int,
) -> Result<Seq<GroupView>, ()>
    decreases rows.len(),
{
    if rows.len() == 0 {
        Ok(Seq::empty())
    } else {
        match group_rows(rows.drop_last(), ncols, si, sui, vi) {
            Err(()) => Err(()),
            Ok(gs) => add_row(gs, rows[rows.len() - 1], ncols, si, sui, vi),
        }
    }
}

proof fn lemma_group_rows_err(
    rows: Seq<Seq<Seq<char>>>,
    ncols: int,
    si: int,
    sui: int,
    vi: int,
    j: int,
)
    requires
        0 <= j <= rows.len(),
        group_rows(rows.take(j), ncols, si, sui, vi) is Err,
    ensures
        group_rows(rows, ncols, si, sui, vi) is Err,
    decreases rows.len() - j,
{
    if j < rows.len() {
        assert(rows.take(j + 1).drop_last() =~= rows.take(j));
        lemma_group_rows_err(rows, ncols, si, sui, vi, j + 1);
    } else {
        assert(rows.take(j) =~= rows);
    }
}

/// Groups the data rows by identity key, in first-seen order.
fn group_rows_exec(rows: &Vec<Vec<String>>, ncols: usize, si: usize, sui: usize, vi: usize) -> (r:
    Result<Vec<CsvGroup>, BojError>)
    ensures
        match r {
            Ok(gs) => group_rows(
                rows.deep_view(),
                ncols as int,
                si as int,
                sui as int,
                vi as int,
            ) == Ok::<Seq<GroupView>, ()>(gs.deep_view()),
            Err(e) => group_rows(
                rows.deep_view(),
                ncols as int,
                si as int,
                sui as int,
                vi as int,
            ) is Err && e matches BojError::DecodeError(_),
        },
{
    let ghost rs = rows.deep_view();
    let mut groups: Vec<CsvGroup> = Vec::new();
    let n = rows.len();
    assert(groups.deep_view() =~= Seq::<GroupView>::empty());
    for i in 0..n
        invariant
            n == rows.len(),
            rs == rows.deep_view(),
            group_rows(rs.take(i as int), ncols as int, si as int, sui as int, vi as int)
                == Ok::<Seq<GroupView>, ()>(groups.deep_view()),
    {
        proof {
            assert(rs.take(i + 1).drop_last() =~= rs.take(i as int));
            assert(rs.take(i + 1)[i as int] == rs[i as int]);
        }
        let row = &rows[i];
        let series_code = get_cell(row, si);
        if is_blank(series_code.as_str()) {
            proof {
                lemma_group_rows_err(rs, ncols as int, si as int, sui as int, vi as int, i + 1);
            }
            return Err(BojError::decode("SERIES_CODE must not be empty"));
        }
        let survey_cell = get_cell(row, sui);
        let survey_date = match normalize_optional(survey_cell.as_str()) {
            Some(s) => s,
            None => {
                proof {
                    lemma_group_rows_err(
                        rs,
                        ncols as int,
                        si as int,
                        sui as int,
                        vi as int,
                        i + 1,
                    );
                }
                return Err(BojError::decode("SURVEY_DATES must not be empty"));
            },
        };
        let value_cell = get_cell(row, vi);
        let value = normalize_optional(value_cell.as_str());
        let point = DataPoint { survey_date, value };
        let key = group_key_exec(row, ncols, sui, vi);
        match find_group_exec(&groups, &key) {
            Some(g) => {
                let ghost before = groups.deep_view();
                let mut grp = groups.remove(g);
                let ghost old_grp = grp@;
                grp.points.push(point);
                assert(grp@.points =~= old_grp.points.push(point@));
                groups.insert(g, grp);
                proof {
                    assert(groups.deep_view() =~= before.update(
                        g as int,
                        GroupView {
                            key: before[g as int].key,
                            first_row: before[g as int].first_row,
                            points: before[g as int].points.push(point@),
                        },
                    ));
                }
            },
            None => {
                let ghost before = groups.deep_view();
                let mut points: Vec<DataPoint> = Vec::new();
                points.push(point);
                let grp = CsvGroup { key, first_row: row.clone(), points };
                groups.push(grp);
                proof {
                    assert(groups@[groups@.len() - 1]@.points =~= seq![
                        groups@[groups@.len() - 1]@.points[0],
                    ]);
                    assert(groups.deep_view() =~= before.push(groups@[groups@.len() - 1]@));
                }
            },
        }
    }
    assert(rs.take(n as int) =~= rs);
    Ok(groups)
}

// ---------------------------------------------------------------------------
// Meta fields of a tabular payload
// ---------------------------------------------------------------------------
/// What the meta rows of a tabular payload mean: `STATUS` must be present
/// and read as a `u16`; message fields default to empty; the date is
/// normalized.
pub open spec fn spec_meta_from_csv(m: Seq<(Seq<char>, Seq<char>)>) -> Result<
    ResponseMetaView,
    (),
> {
    match assoc_lookup(m, "STATUS"@) {
        None => Err(()),
        Some(text) => match spec_parse_u16(text) {
            None => Err(()),
            Some(status) => Ok(
                ResponseMetaView {
                    status,
                    message_id: match assoc_lookup(m, "MESSAGEID"@) {
                        Some(s) => s,
                        None => Seq::empty(),
                    },
                    message: match assoc_lookup(m, "MESSAGE"@) {
                        Some(s) => s,
                        None => Seq::empty(),
                    },
                    date: match assoc_lookup(m, "DATE"@) {
                        None => None,
                        Some(s) => spec_normalize(s),
                    },
                },
            ),
        },
    }
}

/// Reads the shared response metadata from a tabular payload's meta rows.
pub fn parse_meta_from_csv_map(m: &Vec<(String, String)>) -> (r: Result<ResponseMeta, BojError>)
    ensures
        match r {
            Ok(meta) => spec_meta_from_csv(m.deep_view()) == Ok::<ResponseMetaView, ()>(
                meta@,
            ),
            Err(e) => spec_meta_from_csv(m.deep_view()) is Err && e matches
                BojError::DecodeError(_),
        },
{
    let status_text = match assoc_lookup_string(m, "STATUS") {
        Some(t) => t,
        None => {
            return Err(BojError::decode("STATUS not found in CSV response"));
        },
    };
    let status = match parse_u16_str(status_text.as_str()) {
        Some(v) => v,
        None => {
            return Err(BojError::decode("STATUS is not a valid integer"));
        },
    };
    let message_id = match assoc_lookup_string(m, "MESSAGEID") {
        Some(s) => s,
        None => String::new(),
    };
    let message = match assoc_lookup_string(m, "MESSAGE") {
        Some(s) => s,
        None => String::new(),
    };
    let date = match assoc_lookup_string(m, "DATE") {
        Some(s) => normalize_optional(s.as_str()),
        None => None,
    };
    Ok(ResponseMeta { status, message_id, message, date })
}

// ---------------------------------------------------------------------------
// Series rows of a tabular payload
// ---------------------------------------------------------------------------
/// The dedicated columns of a code or layer data row.
pub open spec fn csv_series_known_keys() -> Seq<Seq<char>> {
    seq![
        "SERIES_CODE"@,
        "NAME_OF_TIME_SERIES_J"@,
        "NAME_OF_TIME_SERIES"@,
        "UNIT_J"@,
        "UNIT"@,
        "FREQUENCY"@,
        "CATEGORY_J"@,
        "CATEGORY"@,
        "LAST_UPDATE"@,
        "SURVEY_DATES"@,
        "VALUES"@,
    ]
}

/// The known-column list of a code or layer data row.
fn csv_series_known_keys_exec() -> (r: Vec<&'static str>)
    ensures
        r.deep_view() == csv_series_known_keys(),
{
    let mut known: Vec<&'static str> = Vec::new();
    known.push("SERIES_CODE");
    known.push("NAME_OF_TIME_SERIES_J");
    known.push("NAME_OF_TIME_SERIES");
    known.push("UNIT_J");
    known.push("UNIT");
    known.push("FREQUENCY");
    known.push("CATEGORY_J");
    known.push("CATEGORY");
    known.push("LAST_UPDATE");
    known.push("SURVEY_DATES");
    known.push("VALUES");
    assert(known.deep_view() =~= csv_series_known_keys());
    known
}

/// What one row group means as a series: a required non-blank `SERIES_CODE`
/// cell in the group's first row, the group's accumulated observations,
/// normalized optional labels, and the unrecognized columns as extras.
pub open spec fn spec_csv_series_row(
    header: Seq<Seq<char>>,
    row: Seq<Seq<char>>,
    points: Seq<DataPointView>,
) -> Result<SeriesView, ()> {
    match spec_csv_optional_cell(header, row, "SERIES_CODE"@) {
        None => Err(()),
        Some(code) => Ok(
            SeriesView {
                series_code: code,
                name_of_time_series_j: spec_csv_optional_cell(
                    header,
                    row,
                    "NAME_OF_TIME_SERIES_J"@,
                ),
                name_of_time_series: spec_csv_optional_cell(
                    header,
                    row,
                    "NAME_OF_TIME_SERIES"@,
                ),
                unit_j: spec_csv_optional_cell(header, row, "UNIT_J"@),
                unit: spec_csv_optional_cell(header, row, "UNIT"@),
                frequency: spec_csv_optional_cell(header, row, "FREQUENCY"@),
                category_j: spec_csv_optional_cell(header, row, "CATEGORY_J"@),
                category: spec_csv_optional_cell(header, row, "CATEGORY"@),
                last_update: spec_csv_optional_cell(header, row, "LAST_UPDATE"@),
                points,
                extras: spec_csv_extras(header, row, csv_series_known_keys()),
            },
        ),
    }
}

/// Reads one row group of a by-code response as a series.
pub fn parse_code_series_from_csv_row(
    header: &Vec<String>,
    row: &Vec<String>,
    points: Vec<DataPoint>,
) -> (r: Result<CodeSeries, BojError>)
    ensures
        match r {
            Ok(s) => spec_csv_series_row(header.deep_view(), row.deep_view(), points.deep_view())
                == Ok::<SeriesView, ()>(s@),
            Err(e) => spec_csv_series_row(
                header.deep_view(),
                row.deep_view(),
                points.deep_view(),
            ) is Err && e matches BojError::DecodeError(_),
        },
{
    let series_code = csv_required_cell(header, row, "SERIES_CODE")?;
    let known = csv_series_known_keys_exec();
    let extras = csv_collect_extras(header, row, &known);
    Ok(
        CodeSeries {
            series_code,
            name_of_time_series_j: csv_optional_cell(header, row, "NAME_OF_TIME_SERIES_J"),
            name_of_time_series: csv_optional_cell(header, row, "NAME_OF_TIME_SERIES"),
            unit_j: csv_optional_cell(header, row, "UNIT_J"),
            unit: csv_optional_cell(header, row, "UNIT"),
            frequency: csv_optional_cell(header, row, "FREQUENCY"),
            category_j: csv_optional_cell(header, row, "CATEGORY_J"),
            category: csv_optional_cell(header, row, "CATEGORY"),
            last_update: csv_optional_cell(header, row, "LAST_UPDATE"),
            points,
            extras,
        },
    )
}

/// Reads one row group of a by-layer response as a series.
pub fn parse_layer_series_from_csv_row(
    header: &Vec<String>,
    row: &Vec<String>,
    points: Vec<DataPoint>,
) -> (r: Result<LayerSeries, BojError>)
    ensures
        match r {
            Ok(s) => spec_csv_series_row(header.deep_view(), row.deep_view(), points.deep_view())
                == Ok::<SeriesView, ()>(s@),
            Err(e) => spec_csv_series_row(
                header.deep_view(),
                row.deep_view(),
                points.deep_view(),
            ) is Err && e matches BojError::DecodeError(_),
        },
{
    let series_code = csv_required_cell(header, row, "SERIES_CODE")?;
    let known = csv_series_known_keys_exec();
    let extras = csv_collect_extras(header, row, &known);
    Ok(
        LayerSeries {
            series_code,
            name_of_time_series_j: csv_optional_cell(header, row, "NAME_OF_TIME_SERIES_J"),
            name_of_time_series: csv_optional_cell(header, row, "NAME_OF_TIME_SERIES"),
            unit_j: csv_optional_cell(header, row, "UNIT_J"),
            unit: csv_optional_cell(header, row, "UNIT"),
            frequency: csv_optional_cell(header, row, "FREQUENCY"),
            category_j: csv_optional_cell(header, row, "CATEGORY_J"),
            category: csv_optional_cell(header, row, "CATEGORY"),
            last_update: csv_optional_cell(header, row, "LAST_UPDATE"),
            points,
            extras,
        },
    )
}

/// The series the groups decode to, in group order.
pub open spec fn spec_csv_series_groups(header: Seq<Seq<char>>, gs: Seq<GroupView>) -> Result<
    Seq<SeriesView>,
    (),
>
    decreases gs.len(),
{
    if gs.len() == 0 {
        Ok(Seq::empty())
    } else {
        match spec_csv_series_groups(header, gs.drop_last()) {
            Err(()) => Err(()),
            Ok(acc) => {
                let g = gs[gs.len() - 1];
                match spec_csv_series_row(header, g.first_row, g.points) {
                    Err(()) => Err(()),
                    Ok(s) => Ok(acc.push(s)),
                }
            },
        }
    }
}

proof fn lemma_csv_series_groups_err(header: Seq<Seq<char>>, gs: Seq<GroupView>, j: int)
    requires
        0 <= j <= gs.len(),
        spec_csv_series_groups(header, gs.take(j)) is Err,
    ensures
        spec_csv_series_groups(header, gs) is Err,
    decreases gs.len() - j,
{
    if j < gs.len() {
        assert(gs.take(j + 1).drop_last() =~= gs.take(j));
        lemma_csv_series_groups_err(header, gs, j + 1);
    } else {
        assert(gs.take(j) =~= gs);
    }
}

/// What the data block of a code or layer payload means: no header means
/// zero series; otherwise the three required columns must exist, the rows
/// are grouped, and each group becomes one series.
pub open spec fn spec_series_from_payload(p: CsvPayloadView) -> Result<Seq<SeriesView>, ()> {
    if p.data_header.len() == 0 {
        Ok(Seq::empty())
    } else {
        match (
            header_index(p.data_header, "SERIES_CODE"@),
            header_index(p.data_header, "SURVEY_DATES"@),
            header_index(p.data_header, "VALUES"@),
        ) {
            (Some(si), Some(sui), Some(vi)) => match group_rows(
                p.data_rows,
                p.data_header.len() as int,
                si,
                sui,
                vi,
            ) {
                Err(()) => Err(()),
                Ok(gs) => spec_csv_series_groups(p.data_header, gs),
            },
            _ => Err(()),
        }
    }
}

/// Groups the data block of a payload and decodes each group as a by-code
/// series.
pub fn parse_code_series_from_csv(payload: &CsvPayload) -> (r: Result<Vec<CodeSeries>, BojError>)
    ensures
        match r {
            Ok(series) => spec_series_from_payload(payload@) == Ok::<Seq<SeriesView>, ()>(
                series.deep_view(),
            ),
            Err(e) => spec_series_from_payload(payload@) is Err && e matches
                BojError::DecodeError(_),
        },
{
    if payload.data_header.len() == 0 {
        let r: Vec<CodeSeries> = Vec::new();
        assert(r.deep_view() =~= Seq::<SeriesView>::empty());
        return Ok(r);
    }
    let si = match find_header_index(&payload.data_header, "SERIES_CODE") {
        Some(i) => i,
        None => {
            return Err(BojError::decode("SERIES_CODE column is required in CSV data"));
        },
    };
    let sui = match find_header_index(&payload.data_header, "SURVEY_DATES") {
        Some(i) => i,
        None => {
            return Err(BojError::decode("SURVEY_DATES column is required in CSV data"));
        },
    };
    let vi = match find_header_index(&payload.data_header, "VALUES") {
        Some(i) => i,
        None => {
            return Err(BojError::decode("VALUES column is required in CSV data"));
        },
    };
    let mut groups = group_rows_exec(&payload.data_rows, payload.data_header.len(), si, sui, vi)?;
    let ghost gs = groups.deep_view();
    let ghost hs = payload.data_header.deep_view();
    let n = groups.len();
    let mut series: Vec<CodeSeries> = Vec::new();
    assert(series.deep_view() =~= Seq::<SeriesView>::empty());
    assert(gs.skip(0) =~= gs);
    for i in 0..n
        invariant
            n == gs.len(),
            hs == payload.data_header.deep_view(),
            groups.deep_view() == gs.skip(i as int),
            spec_series_from_payload(payload@) == spec_csv_series_groups(hs, gs),
            spec_csv_series_groups(hs, gs.take(i as int)) == Ok::<Seq<SeriesView>, ()>(
                series.deep_view(),
            ),
    {
        proof {
            assert(gs.take(i + 1).drop_last() =~= gs.take(i as int));
            assert(gs.take(i + 1)[i as int] == gs[i as int]);
            assert(gs.skip(i as int)[0] == gs[i as int]);
        }
        assert(groups.deep_view().len() == groups@.len());
        assert(groups@.len() == n - i);
        let ghost bv = groups@;
        let ghost dvb = groups.deep_view();
        let g = groups.remove(0);
        proof {
            assert(groups@ == bv.remove(0));
            assert forall|j: int|
                0 <= j < groups@.len() implies #[trigger] groups.deep_view()[j] == gs.skip(
                i + 1,
            )[j] by {
                assert(groups@[j] == bv[j + 1]);
                assert(groups.deep_view()[j] == groups@[j].deep_view());
                assert(dvb[j + 1] == bv[j + 1].deep_view());
                assert(dvb[j + 1] == gs.skip(i as int)[j + 1]);
                assert(gs.skip(i as int)[j + 1] == gs[i + 1 + j]);
                assert(gs.skip(i + 1)[j] == gs[i + 1 + j]);
            }
            assert(groups.deep_view() =~= gs.skip(i + 1));
        }
        match parse_code_series_from_csv_row(&payload.data_header, &g.first_row, g.points) {
            Err(e) => {
                proof {
                    lemma_csv_series_groups_err(hs, gs, i + 1);
                }
                return Err(e);
            },
            Ok(s) => {
                let ghost before = series.deep_view();
                series.push(s);
                assert(series.deep_view() =~= before.push(series@[series@.len() - 1]@));
            },
        }
    }
    assert(gs.take(n as int) =~= gs);
    Ok(series)
}

/// Groups the data block of a payload and decodes each group as a by-layer
/// series.
pub fn parse_layer_series_from_csv(payload: &CsvPayload) -> (r: Result<
    Vec<LayerSeries>,
    BojError,
>)
    ensures
        match r {
            Ok(series) => spec_series_from_payload(payload@) == Ok::<Seq<SeriesView>, ()>(
                series.deep_view(),
            ),
            Err(e) => spec_series_from_payload(payload@) is Err && e matches
                BojError::DecodeError(_),
        },
{
    if payload.data_header.len() == 0 {
        let r: Vec<LayerSeries> = Vec::new();
        assert(r.deep_view() =~= Seq::<SeriesView>::empty());
        return Ok(r);
    }
    let si = match find_header_index(&payload.data_header, "SERIES_CODE") {
        Some(i) => i,
        None => {
            return Err(BojError::decode("SERIES_CODE column is required in CSV data"));
        },
    };
    let sui = match find_header_index(&payload.data_header, "SURVEY_DATES") {
        Some(i) => i,
        None => {
            return Err(BojError::decode("SURVEY_DATES column is required in CSV data"));
        },
    };
    let vi = match find_header_index(&payload.data_header, "VALUES") {
        Some(i) => i,
        None => {
            return Err(BojError::decode("VALUES column is required in CSV data"));
        },
    };
    let mut groups = group_rows_exec(&payload.data_rows, payload.data_header.len(), si, sui, vi)?;
    let ghost gs = groups.deep_view();
    let ghost hs = payload.data_header.deep_view();
    let n = groups.len();
    let mut series: Vec<LayerSeries> = Vec::new();
    assert(series.deep_view() =~= Seq::<SeriesView>::empty());
    assert(gs.skip(0) =~= gs);
    for i in 0..n
        invariant
            n == gs.len(),
            hs == payload.data_header.deep_view(),
            groups.deep_view() == gs.skip(i as int),
            spec_series_from_payload(payload@) == spec_csv_series_groups(hs, gs),
            spec_csv_series_groups(hs, gs.take(i as int)) == Ok::<Seq<SeriesView>, ()>(
                series.deep_view(),
            ),
    {
        proof {
            assert(gs.take(i + 1).drop_last() =~= gs.take(i as int));
            assert(gs.take(i + 1)[i as int] == gs[i as int]);
            assert(gs.skip(i as int)[0] == gs[i as int]);
        }
        assert(groups.deep_view().len() == groups@.len());
        assert(groups@.len() == n - i);
        let ghost bv = groups@;
        let ghost dvb = groups.deep_view();
        let g = groups.remove(0);
        proof {
            assert(groups@ == bv.remove(0));
            assert forall|j: int|
                0 <= j < groups@.len() implies #[trigger] groups.deep_view()[j] == gs.skip(
                i + 1,
            )[j] by {
                assert(groups@[j] == bv[j + 1]);
                assert(groups.deep_view()[j] == groups@[j].deep_view());
                assert(dvb[j + 1] == bv[j + 1].deep_view());
                assert(dvb[j + 1] == gs.skip(i as int)[j + 1]);
                assert(gs.skip(i as int)[j + 1] == gs[i + 1 + j]);
                assert(gs.skip(i + 1)[j] == gs[i + 1 + j]);
            }
            assert(groups.deep_view() =~= gs.skip(i + 1));
        }
        match parse_layer_series_from_csv_row(&payload.data_header, &g.first_row, g.points) {
            Err(e) => {
                proof {
                    lemma_csv_series_groups_err(hs, gs, i + 1);
                }
                return Err(e);
            },
            Ok(s) => {
                let ghost before = series.deep_view();
                series.push(s);
                assert(series.deep_view() =~= before.push(series@[series@.len() - 1]@));
            },
        }
    }
    assert(gs.take(n as int) =~= gs);
    Ok(series)
}

// ---------------------------------------------------------------------------
// Metadata rows of a tabular payload
// ---------------------------------------------------------------------------
/// The dedicated columns of a metadata data row.
pub open spec fn csv_metadata_known_keys() -> Seq<Seq<char>> {
    seq![
        "SERIES_CODE"@,
        "NAME_OF_TIME_SERIES_J"@,
        "NAME_OF_TIME_SERIES"@,
        "UNIT_J"@,
        "UNIT"@,
        "FREQUENCY"@,
        "CATEGORY_J"@,
        "CATEGORY"@,
        "LAYER1"@,
        "LAYER2"@,
        "LAYER3"@,
        "LAYER4"@,
        "LAYER5"@,
        "START_OF_THE_TIME_SERIES"@,
        "END_OF_THE_TIME_SERIES"@,
        "LAST_UPDATE"@,
        "NOTES_J"@,
        "NOTES"@,
    ]
}

/// What one metadata data row means: every column optional, the five layer
/// indices numeric, the unrecognized columns kept as extras.
pub open spec fn spec_csv_metadata_row(header: Seq<Seq<char>>, row: Seq<Seq<char>>) -> Result<
    MetadataEntryView,
    (),
> {
    match (
        spec_csv_u32_cell(header, row, "LAYER1"@),
        spec_csv_u32_cell(header, row, "LAYER2"@),
        spec_csv_u32_cell(header, row, "LAYER3"@),
        spec_csv_u32_cell(header, row, "LAYER4"@),
        spec_csv_u32_cell(header, row, "LAYER5"@),
    ) {
        (Ok(layer1), Ok(layer2), Ok(layer3), Ok(layer4), Ok(layer5)) => Ok(
            MetadataEntryView {
                series_code: spec_csv_optional_cell(header, row, "SERIES_CODE"@),
                name_of_time_series_j: spec_csv_optional_cell(
                    header,
                    row,
                    "NAME_OF_TIME_SERIES_J"@,
                ),
                name_of_time_series: spec_csv_optional_cell(
                    header,
                    row,
                    "NAME_OF_TIME_SERIES"@,
                ),
                unit_j: spec_csv_optional_cell(header, row, "UNIT_J"@),
                unit: spec_csv_optional_cell(header, row, "UNIT"@),
                frequency: spec_csv_optional_cell(header, row, "FREQUENCY"@),
                category_j: spec_csv_optional_cell(header, row, "CATEGORY_J"@),
                category: spec_csv_optional_cell(header, row, "CATEGORY"@),
                layer1,
                layer2,
                layer3,
                layer4,
                layer5,
                start_of_the_time_series: spec_csv_optional_cell(
                    header,
                    row,
                    "START_OF_THE_TIME_SERIES"@,
                ),
                end_of_the_time_series: spec_csv_optional_cell(
                    header,
                    row,
                    "END_OF_THE_TIME_SERIES"@,
                ),
                last_update: spec_csv_optional_cell(header, row, "LAST_UPDATE"@),
                notes_j: spec_csv_optional_cell(header, row, "NOTES_J"@),
                notes: spec_csv_optional_cell(header, row, "NOTES"@),
                extras: spec_csv_extras(header, row, csv_metadata_known_keys()),
            },
        ),
        _ => Err(()),
    }
}

/// Reads one metadata data row.
pub fn parse_metadata_entry_from_csv_row(header: &Vec<String>, row: &Vec<String>) -> (r: Result<
    MetadataEntry,
    BojError,
>)
    ensures
        match r {
            Ok(entry) => spec_csv_metadata_row(header.deep_view(), row.deep_view()) == Ok::<
                MetadataEntryView,
                (),
            >(entry@),
            Err(e) => spec_csv_metadata_row(header.deep_view(), row.deep_view()) is Err && e
                matches BojError::DecodeError(_),
        },
{
    let layer1 = csv_optional_u32_cell(header, row, "LAYER1")?;
    let layer2 = csv_optional_u32_cell(header, row, "LAYER2")?;
    let layer3 = csv_optional_u32_cell(header, row, "LAYER3")?;
    let layer4 = csv_optional_u32_cell(header, row, "LAYER4")?;
    let layer5 = csv_optional_u32_cell(header, row, "LAYER5")?;
    let mut known: Vec<&'static str> = Vec::new();
    known.push("SERIES_CODE");
    known.push("NAME_OF_TIME_SERIES_J");
    known.push("NAME_OF_TIME_SERIES");
    known.push("UNIT_J");
    known.push("UNIT");
    known.push("FREQUENCY");
    known.push("CATEGORY_J");
    known.push("CATEGORY");
    known.push("LAYER1");
    known.push("LAYER2");
    known.push("LAYER3");
    known.push("LAYER4");
    known.push("LAYER5");
    known.push("START_OF_THE_TIME_SERIES");
    known.push("END_OF_THE_TIME_SERIES");
    known.push("LAST_UPDATE");
    known.push("NOTES_J");
    known.push("NOTES");
    assert(known.deep_view() =~= csv_metadata_known_keys());
    let extras = csv_collect_extras(header, row, &known);
    Ok(
        MetadataEntry {
            series_code: csv_optional_cell(header, row, "SERIES_CODE"),
            name_of_time_series_j: csv_optional_cell(header, row, "NAME_OF_TIME_SERIES_J"),
            name_of_time_series: csv_optional_cell(header, row, "NAME_OF_TIME_SERIES"),
            unit_j: csv_optional_cell(header, row, "UNIT_J"),
            unit: csv_optional_cell(header, row, "UNIT"),
            frequency: csv_optional_cell(header, row, "FREQUENCY"),
            category_j: csv_optional_cell(header, row, "CATEGORY_J"),
            category: csv_optional_cell(header, row, "CATEGORY"),
            layer1,
            layer2,
            layer3,
            layer4,
            layer5,
            start_of_the_time_series: csv_optional_cell(header, row, "START_OF_THE_TIME_SERIES"),
            end_of_the_time_series: csv_optional_cell(header, row, "END_OF_THE_TIME_SERIES"),
            last_update: csv_optional_cell(header, row, "LAST_UPDATE"),
            notes_j: csv_optional_cell(header, row, "NOTES_J"),
            notes: csv_optional_cell(header, row, "NOTES"),
            extras,
        },
    )
}

/// The metadata rows of a payload, decoded in order.
pub open spec fn spec_csv_metadata_rows(
    header: Seq<Seq<char>>,
    rows: Seq<Seq<Seq<char>>>,
) -> Result<Seq<MetadataEntryView>, ()>
    decreases rows.len(),
{
    if rows.len() == 0 {
        Ok(Seq::empty())
    } else {
        match spec_csv_metadata_rows(header, rows.drop_last()) {
            Err(()) => Err(()),
            Ok(acc) => match spec_csv_metadata_row(header, rows[rows.len() - 1]) {
                Err(()) => Err(()),
                Ok(entry) => Ok(acc.push(entry)),
            },
        }
    }
}

proof fn lemma_csv_metadata_rows_err(header: Seq<Seq<char>>, rows: Seq<Seq<Seq<char>>>, j: int)
    requires
        0 <= j <= rows.len(),
        spec_csv_metadata_rows(header, rows.take(j)) is Err,
    ensures
        spec_csv_metadata_rows(header, rows) is Err,
    decreases rows.len() - j,
{
    if j < rows.len() {
        assert(rows.take(j + 1).drop_last() =~= rows.take(j));
        lemma_csv_metadata_rows_err(header, rows, j + 1);
    } else {
        assert(rows.take(j) =~= rows);
    }
}

// ---------------------------------------------------------------------------
// Document-level decoding
// ---------------------------------------------------------------------------
/// What a by-code tabular payload decodes to: the bytes must decode under
/// the encoding hint and parse as delimited records; the sectioned rows then
/// yield meta, echo, cursor and the grouped series.
pub open spec fn spec_decode_code_csv(bytes: Seq<u8>, encoding: CsvEncoding) -> Result<
    CodeResponseView,
    (),
> {
    match spec_decode_csv_text(bytes, encoding) {
        None => Err(()),
        Some(text) => if !csv_parses(text) {
            Err(())
        } else {
            let payload = section_rows(norm_rows(csv_rows_of(text)), empty_payload());
            match spec_meta_from_csv(payload.meta) {
                Err(()) => Err(()),
                Ok(meta) => match spec_code_echo(payload.parameter) {
                    Err(()) => Err(()),
                    Ok(parameter) => match spec_next_position(payload.next_position) {
                        Err(()) => Err(()),
                        Ok(next_position) => match spec_series_from_payload(payload) {
                            Err(()) => Err(()),
                            Ok(series) => Ok(
                                CodeResponseView {
                                    meta,
                                    parameter,
                                    next_position,
                                    series,
                                    raw: text,
                                },
                            ),
                        },
                    },
                },
            }
        },
    }
}

/// The text-decode failure message for an encoding hint.
fn encoding_error(encoding: CsvEncoding) -> (r: BojError)
    ensures
        r matches BojError::DecodeError(_),
{
    match encoding {
        CsvEncoding::Utf8 => BojError::decode("invalid UTF-8 CSV payload"),
        CsvEncoding::ShiftJis => BojError::decode(
            "Shift-JIS CSV payload contains invalid byte sequence",
        ),
    }
}

/// Decodes a by-code payload as a tabular document.
pub fn decode_code_csv(bytes: &[u8], encoding: CsvEncoding) -> (r: Result<
    CodeResponse,
    BojError,
>)
    ensures
        match r {
            Ok(resp) => spec_decode_code_csv(bytes@, encoding) == Ok::<CodeResponseView, ()>(
                resp@,
            ),
            Err(e) => spec_decode_code_csv(bytes@, encoding) is Err && e matches
                BojError::DecodeError(_),
        },
{
    let text = match decode_csv_text(bytes, encoding) {
        Some(t) => t,
        None => {
            return Err(encoding_error(encoding));
        },
    };
    let rows = match parse_csv_records(text.as_str()) {
        Some(rows) => rows,
        None => {
            return Err(BojError::decode("malformed CSV payload"));
        },
    };
    let payload = parse_csv_payload(&rows);
    let meta = parse_meta_from_csv_map(&payload.meta)?;
    let parameter = parse_code_parameter_map(&payload.parameter)?;
    let next_position = parse_next_position_from_text(
        match &payload.next_position {
            Some(s) => Some(s.as_str()),
            None => None,
        },
    )?;
    let series = parse_code_series_from_csv(&payload)?;
    Ok(CodeResponse { meta, parameter, next_position, series, raw: text })
}

/// What a by-layer tabular payload decodes to.
pub open spec fn spec_decode_layer_csv(bytes: Seq<u8>, encoding: CsvEncoding) -> Result<
    LayerResponseView,
    (),
> {
    match spec_decode_csv_text(bytes, encoding) {
        None => Err(()),
        Some(text) => if !csv_parses(text) {
            Err(())
        } else {
            let payload = section_rows(norm_rows(csv_rows_of(text)), empty_payload());
            match spec_meta_from_csv(payload.meta) {
                Err(()) => Err(()),
                Ok(meta) => match spec_layer_echo(payload.parameter) {
                    Err(()) => Err(()),
                    Ok(parameter) => match spec_next_position(payload.next_position) {
                        Err(()) => Err(()),
                        Ok(next_position) => match spec_series_from_payload(payload) {
                            Err(()) => Err(()),
                            Ok(series) => Ok(
                                LayerResponseView {
                                    meta,
                                    parameter,
                                    next_position,
                                    series,
                                    raw: text,
                                },
                            ),
                        },
                    },
                },
            }
        },
    }
}

/// Decodes a by-layer payload as a tabular document.
pub fn decode_layer_csv(bytes: &[u8], encoding: CsvEncoding) -> (r: Result<
    LayerResponse,
    BojError,
>)
    ensures
        match r {
            Ok(resp) => spec_decode_layer_csv(bytes@, encoding) == Ok::<
                LayerResponseView,
                (),
            >(resp@),
            Err(e) => spec_decode_layer_csv(bytes@, encoding) is Err && e matches
                BojError::DecodeError(_),
        },
{
    let text = match decode_csv_text(bytes, encoding) {
        Some(t) => t,
        None => {
            return Err(encoding_error(encoding));
        },
    };
    let rows = match parse_csv_records(text.as_str()) {
        Some(rows) => rows,
        None => {
            return Err(BojError::decode("malformed CSV payload"));
        },
    };
    let payload = parse_csv_payload(&rows);
    let meta = parse_meta_from_csv_map(&payload.meta)?;
    let parameter = parse_layer_parameter_map(&payload.parameter)?;
    let next_position = parse_next_position_from_text(
        match &payload.next_position {
            Some(s) => Some(s.as_str()),
            None => None,
        },
    )?;
    let series = parse_layer_series_from_csv(&payload)?;
    Ok(LayerResponse { meta, parameter, next_position, series, raw: text })
}

/// The database code of a metadata payload: the `DB` row when it normalizes
/// to something, else the echoed `DB` parameter, else empty.
pub open spec fn spec_metadata_db(p: CsvPayloadView) -> Seq<char> {
    let fallback = match assoc_lookup(p.parameter, "DB"@) {
        Some(v) => match spec_normalize(v) {
            Some(x) => x,
            None => Seq::empty(),
        },
        None => Seq::empty(),
    };
    match p.db {
        Some(d) => match spec_normalize(d) {
            Some(x) => x,
            None => fallback,
        },
        None => fallback,
    }
}

/// Reads the database code of a metadata payload.
fn metadata_db(payload: &CsvPayload) -> (r: String)
    ensures
        r@ == spec_metadata_db(payload@),
{
    let direct = match &payload.db {
        Some(d) => normalize_optional(d.as_str()),
        None => None,
    };
    match direct {
        Some(x) => x,
        None => match assoc_lookup_string(&payload.parameter, "DB") {
            Some(v) => match normalize_optional(v.as_str()) {
                Some(x) => x,
                None => String::new(),
            },
            None => String::new(),
        },
    }
}

/// What a metadata tabular payload decodes to.
pub open spec fn spec_decode_metadata_csv(bytes: Seq<u8>, encoding: CsvEncoding) -> Result<
    MetadataResponseView,
    (),
> {
    match spec_decode_csv_text(bytes, encoding) {
        None => Err(()),
        Some(text) => if !csv_parses(text) {
            Err(())
        } else {
            let payload = section_rows(norm_rows(csv_rows_of(text)), empty_payload());
            match spec_meta_from_csv(payload.meta) {
                Err(()) => Err(()),
                Ok(meta) => match spec_csv_metadata_rows(payload.data_header, payload.data_rows) {
                    Err(()) => Err(()),
                    Ok(entries) => Ok(
                        MetadataResponseView {
                            meta,
                            db: spec_metadata_db(payload),
                            entries,
                            raw: text,
                        },
                    ),
                },
            }
        },
    }
}

/// Decodes a metadata payload as a tabular document.
pub fn decode_metadata_csv(bytes: &[u8], encoding: CsvEncoding) -> (r: Result<
    MetadataResponse,
    BojError,
>)
    ensures
        match r {
            Ok(resp) => spec_decode_metadata_csv(bytes@, encoding) == Ok::<
                MetadataResponseView,
                (),
            >(resp@),
            Err(e) => spec_decode_metadata_csv(bytes@, encoding) is Err && e matches
                BojError::DecodeError(_),
        },
{
    let text = match decode_csv_text(bytes, encoding) {
        Some(t) => t,
        None => {
            return Err(encoding_error(encoding));
        },
    };
    let rows = match parse_csv_records(text.as_str()) {
        Some(rows) => rows,
        None => {
            return Err(BojError::decode("malformed CSV payload"));
        },
    };
    let payload = parse_csv_payload(&rows);
    let meta = parse_meta_from_csv_map(&payload.meta)?;
    let db = metadata_db(&payload);
    let ghost hs = payload.data_header.deep_view();
    let ghost drs = payload.data_rows.deep_view();
    let n = payload.data_rows.len();
    let mut entries: Vec<MetadataEntry> = Vec::new();
    assert(entries.deep_view() =~= Seq::<MetadataEntryView>::empty());
    for i in 0..n
        invariant
            n == payload.data_rows.len(),
            hs == payload.data_header.deep_view(),
            drs == payload.data_rows.deep_view(),
            spec_csv_metadata_rows(hs, drs) is Err ==> spec_decode_metadata_csv(
                bytes@,
                encoding,
            ) is Err,
            spec_csv_metadata_rows(hs, drs.take(i as int)) == Ok::<
                Seq<MetadataEntryView>,
                (),
            >(entries.deep_view()),
    {
        proof {
            assert(drs.take(i + 1).drop_last() =~= drs.take(i as int));
            assert(drs.take(i + 1)[i as int] == drs[i as int]);
        }
        match parse_metadata_entry_from_csv_row(&payload.data_header, &payload.data_rows[i]) {
            Err(e) => {
                proof {
                    lemma_csv_metadata_rows_err(hs, drs, i + 1);
                }
                return Err(e);
            },
            Ok(entry) => {
                let ghost before = entries.deep_view();
                entries.push(entry);
                assert(entries.deep_view() =~= before.push(entries@[entries@.len() - 1]@));
            },
        }
    }
    assert(drs.take(n as int) =~= drs);
    Ok(MetadataResponse { meta, db, entries, raw: text })
}

} // verus!
