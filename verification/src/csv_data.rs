//! The tabular wire format: text decoding with an encoding hint, record
//! parsing behind a trusted wrapper, cell normalization, and the sectioning
//! of rows into meta, echoed parameters and the data block.

use vstd::prelude::*;
use vstd::utf8::{decode_utf8, valid_utf8};

use crate::decode_common::assoc_insert;
use crate::json::utf8_text;
use crate::options::CsvEncoding;
use crate::text::{all_ws, is_blank, spec_trim, trim_str, upper_seq, upper_string};

verus! {

/// Whether the bytes decode cleanly as the single-byte legacy encoding.
pub uninterp spec fn shift_jis_decodes(bytes: Seq<u8>) -> bool;

/// The text the legacy-encoded bytes decode to.
pub uninterp spec fn shift_jis_text_of(bytes: Seq<u8>) -> Seq<char>;

/// Decodes bytes as the single-byte legacy encoding, with no silent
/// replacement.
///
/// Relies on `encoding_rs::SHIFT_JIS::decode`: the result is a function of
/// the bytes alone, and the error flag reports any malformed sequence. That
/// call sniffs a leading byte-order mark first, so marked bytes decode under
/// the encoding the mark names, with the mark removed; the two names denote
/// the call's outcome including that rule.
#[verifier::external_body]
fn decode_shift_jis(bytes: &[u8]) -> (r: Option<String>)
    ensures
        match r {
            Some(s) => shift_jis_decodes(bytes@) && s@ == shift_jis_text_of(bytes@),
            None => !shift_jis_decodes(bytes@),
        },
{
    let (decoded, _, had_errors) = encoding_rs::SHIFT_JIS.decode(bytes);
    if had_errors {
        None
    } else {
        Some(decoded.into_owned())
    }
}

/// The text a tabular payload decodes to under an encoding hint, when every
/// byte sequence is valid for that encoding.
pub open spec fn spec_decode_csv_text(bytes: Seq<u8>, encoding: CsvEncoding) -> Option<
    Seq<char>,
> {
    match encoding {
        CsvEncoding::Utf8 => if valid_utf8(bytes) {
            Some(decode_utf8(bytes))
        } else {
            None
        },
        CsvEncoding::ShiftJis => if shift_jis_decodes(bytes) {
            Some(shift_jis_text_of(bytes))
        } else {
            None
        },
    }
}

/// Decodes a tabular payload to text under an encoding hint; any invalid
/// byte sequence fails the decode.
pub fn decode_csv_text(bytes: &[u8], encoding: CsvEncoding) -> (r: Option<String>)
    ensures
        match r {
            Some(s) => spec_decode_csv_text(bytes@, encoding) == Some(s@),
            None => spec_decode_csv_text(bytes@, encoding) is None,
        },
{
    match encoding {
        CsvEncoding::Utf8 => utf8_text(bytes),
        CsvEncoding::ShiftJis => decode_shift_jis(bytes),
    }
}

/// Whether the text parses as delimited records.
pub uninterp spec fn csv_parses(text: Seq<char>) -> bool;

/// The rows of cells the text parses to.
pub uninterp spec fn csv_rows_of(text: Seq<char>) -> Seq<Seq<Seq<char>>>;

/// Parses text as flexible delimited records: rows may differ in column
/// count, and quoted cells are unescaped.
///
/// Relies on `csv::ReaderBuilder` with `has_headers(false)` and
/// `flexible(true)`: the records are a function of the text alone.
#[verifier::external_body]
fn csv_records_raw(text: &str) -> (r: Option<Vec<Vec<String>>>)
    ensures
        match r {
            Some(rows) => csv_parses(text@) && rows.deep_view() == csv_rows_of(text@),
            None => !csv_parses(text@),
        },
{
    let mut reader = csv::ReaderBuilder::new().has_headers(false).flexible(true).from_reader(
        text.as_bytes(),
    );
    let mut rows = Vec::new();
    for record in reader.records() {
        match record {
            Ok(record) => rows.push(record.iter().map(|cell| cell.to_string()).collect()),
            Err(_) => {
                return None;
            },
        }
    }
    Some(rows)
}

/// The sequence with leading byte-order markers removed.
pub open spec fn strip_bom(s: Seq<char>) -> Seq<char>
    decreases s.len(),
{
    if s.len() > 0 && s[0] == '\u{feff}' {
        strip_bom(s.drop_first())
    } else {
        s
    }
}

/// One normalized cell: trimmed, and with a leading byte-order marker
/// stripped from the first cell of the first row.
pub open spec fn norm_cell(rows: Seq<Seq<Seq<char>>>, i: int, j: int) -> Seq<char> {
    if i == 0 && j == 0 {
        strip_bom(spec_trim(rows[i][j]))
    } else {
        spec_trim(rows[i][j])
    }
}

/// The rows with every cell normalized.
pub open spec fn norm_rows(rows: Seq<Seq<Seq<char>>>) -> Seq<Seq<Seq<char>>> {
    Seq::new(rows.len(), |i: int| Seq::new(rows[i].len(), |j: int| norm_cell(rows, i, j)))
}

/// Strips leading byte-order markers from a string.
fn strip_bom_exec(s: &str) -> (r: String)
    ensures
        r@ == strip_bom(s@),
{
    let n = s.unicode_len();
    let mut lo: usize = 0;
    assert(s@.skip(0) =~= s@);
    while lo < n && s.get_char(lo) == '\u{feff}'
        invariant
            n == s@.len(),
            lo <= n,
            strip_bom(s@) == strip_bom(s@.skip(lo as int)),
        decreases n - lo,
    {
        proof {
            assert(s@.skip(lo as int).drop_first() =~= s@.skip(lo + 1));
        }
        lo = lo + 1;
    }
    assert(strip_bom(s@) == s@.skip(lo as int)) by {
        assert(s@.skip(lo as int).len() == 0 || s@.skip(lo as int)[0] != '\u{feff}');
    }
    let out = s.substring_char(lo, n);
    assert(out@ =~= s@.skip(lo as int));
    out.to_owned()
}

/// Normalizes parsed rows: trims every cell and strips a leading byte-order
/// marker from the first cell of the first row.
fn normalize_rows(rows: &Vec<Vec<String>>) -> (r: Vec<Vec<String>>)
    ensures
        r.deep_view() == norm_rows(rows.deep_view()),
{
    let ghost rs = rows.deep_view();
    let mut r: Vec<Vec<String>> = Vec::new();
    let n = rows.len();
    for i in 0..n
        invariant
            n == rows.len(),
            rs == rows.deep_view(),
            r.deep_view() =~= norm_rows(rs).take(i as int),
    {
        let mut row: Vec<String> = Vec::new();
        let m = rows[i].len();
        for j in 0..m
            invariant
                n == rows.len(),
                m == rows@[i as int]@.len(),
                i < n,
                rs == rows.deep_view(),
                row.deep_view() =~= norm_rows(rs)[i as int].take(j as int),
        {
            let cell = trim_str(rows[i][j].as_str());
            let cell = if i == 0 && j == 0 {
                strip_bom_exec(cell.as_str())
            } else {
                cell
            };
            let ghost before = row.deep_view();
            row.push(cell);
            proof {
                assert(rs[i as int][j as int] == rows@[i as int]@[j as int]@);
                assert(row.deep_view() =~= before.push(norm_cell(rs, i as int, j as int)));
                assert(norm_rows(rs)[i as int].take(j + 1) =~= norm_rows(rs)[i as int].take(
                    j as int,
                ).push(norm_cell(rs, i as int, j as int)));
            }
        }
        assert(row.deep_view() =~= norm_rows(rs)[i as int]);
        let ghost before_rows = r.deep_view();
        r.push(row);
        proof {
            assert(r.deep_view() =~= before_rows.push(norm_rows(rs)[i as int]));
            assert(norm_rows(rs).take(i + 1) =~= norm_rows(rs).take(i as int).push(
                norm_rows(rs)[i as int],
            ));
        }
    }
    assert(norm_rows(rs).take(n as int) =~= norm_rows(rs));
    r
}

/// Parses tabular text into normalized rows of cells; `None` when the text
/// is no well-formed delimited payload.
pub fn parse_csv_records(text: &str) -> (r: Option<Vec<Vec<String>>>)
    ensures
        match r {
            Some(rows) => csv_parses(text@) && rows.deep_view() == norm_rows(
                csv_rows_of(text@),
            ),
            None => !csv_parses(text@),
        },
{
    match csv_records_raw(text) {
        Some(rows) => Some(normalize_rows(&rows)),
        None => None,
    }
}

/// A row that sectioning skips: no cells, or only blank cells.
pub open spec fn blank_row(row: Seq<Seq<char>>) -> bool {
    forall|j: int| 0 <= j < row.len() ==> all_ws(#[trigger] row[j])
}

/// The cell at an index, or empty when the row is shorter.
pub open spec fn cell_or_empty(row: Seq<Seq<char>>, j: int) -> Seq<char> {
    if 0 <= j < row.len() {
        row[j]
    } else {
        Seq::empty()
    }
}

/// The sectioned form of a tabular payload: meta fields, echoed parameters,
/// the pagination cursor, the database code, and the data block.
pub ghost struct CsvPayloadView {
    /// Meta rows, keyed by their upper-cased first cell.
    pub meta: Seq<(Seq<char>, Seq<char>)>,
    /// Echoed parameters, keyed by their upper-cased second cell.
    pub parameter: Seq<(Seq<char>, Seq<char>)>,
    /// The pagination cursor text, when a cursor row was seen.
    pub next_position: Option<Seq<char>>,
    /// The database code, when a database row was seen.
    pub db: Option<Seq<char>>,
    /// The data header row; empty when no data block was seen.
    pub data_header: Seq<Seq<char>>,
    /// The non-blank data rows after the header.
    pub data_rows: Seq<Seq<Seq<char>>>,
}

/// The sectioned form of a tabular payload.
pub struct CsvPayload {
    /// Meta rows, keyed by their upper-cased first cell.
    pub meta: Vec<(String, String)>,
    /// Echoed parameters, keyed by their upper-cased second cell.
    pub parameter: Vec<(String, String)>,
    /// The pagination cursor text, when a cursor row was seen.
    pub next_position: Option<String>,
    /// The database code, when a database row was seen.
    pub db: Option<String>,
    /// The data header row; empty when no data block was seen.
    pub data_header: Vec<String>,
    /// The non-blank data rows after the header.
    pub data_rows: Vec<Vec<String>>,
}

impl View for CsvPayload {
    type V = CsvPayloadView;

    open spec fn view(&self) -> CsvPayloadView {
        CsvPayloadView {
            meta: self.meta.deep_view(),
            parameter: self.parameter.deep_view(),
            next_position: match self.next_position {
                Some(s) => Some(s@),
                None => None,
            },
            db: match self.db {
                Some(s) => Some(s@),
                None => None,
            },
            data_header: self.data_header.deep_view(),
            data_rows: self.data_rows.deep_view(),
        }
    }
}

/// The non-blank rows, in order.
pub open spec fn keep_data_rows(rows: Seq<Seq<Seq<char>>>) -> Seq<Seq<Seq<char>>>
    decreases rows.len(),
{
    if rows.len() == 0 {
        Seq::empty()
    } else {
        let rest = keep_data_rows(rows.drop_last());
        if blank_row(rows[rows.len() - 1]) {
            rest
        } else {
            rest.push(rows[rows.len() - 1])
        }
    }
}

/// The meta keys a sectioning scan recognizes.
pub open spec fn is_meta_key(key: Seq<char>) -> bool {
    key == "STATUS"@ || key == "MESSAGEID"@ || key == "MESSAGE"@ || key == "DATE"@
}

/// Sectioning, scanning rows top to bottom: meta rows fill the meta map,
/// `PARAMETER` rows the echo map, `NEXTPOSITION` and `DB` rows their fields;
/// the first `SERIES_CODE` row is the data header and everything non-blank
/// after it is data.
pub open spec fn section_rows(rows: Seq<Seq<Seq<char>>>, state: CsvPayloadView) -> CsvPayloadView
    decreases rows.len(),
{
    if rows.len() == 0 {
        state
    } else {
        let row = rows[0];
        let rest = rows.drop_first();
        if blank_row(row) {
            section_rows(rest, state)
        } else {
            let key = upper_seq(spec_trim(cell_or_empty(row, 0)));
            if is_meta_key(key) {
                section_rows(
                    rest,
                    CsvPayloadView {
                        meta: assoc_insert(state.meta, key, cell_or_empty(row, 1)),
                        ..state
                    },
                )
            } else if key == "PARAMETER"@ {
                let name = upper_seq(spec_trim(cell_or_empty(row, 1)));
                if name.len() > 0 {
                    section_rows(
                        rest,
                        CsvPayloadView {
                            parameter: assoc_insert(
                                state.parameter,
                                name,
                                cell_or_empty(row, 2),
                            ),
                            ..state
                        },
                    )
                } else {
                    section_rows(rest, state)
                }
            } else if key == "NEXTPOSITION"@ {
                section_rows(
                    rest,
                    CsvPayloadView { next_position: Some(cell_or_empty(row, 1)), ..state },
                )
            } else if key == "DB"@ {
                section_rows(
                    rest,
                    CsvPayloadView {
                        db: if row.len() > 1 {
                            Some(row[1])
                        } else {
                            None
                        },
                        ..state
                    },
                )
            } else if key == "SERIES_CODE"@ {
                CsvPayloadView { data_header: row, data_rows: keep_data_rows(rest), ..state }
            } else {
                section_rows(rest, state)
            }
        }
    }
}

/// The empty sectioning state.
pub open spec fn empty_payload() -> CsvPayloadView {
    CsvPayloadView {
        meta: Seq::empty(),
        parameter: Seq::empty(),
        next_position: None,
        db: None,
        data_header: Seq::empty(),
        data_rows: Seq::empty(),
    }
}

/// Whether the first cell is blank or missing.
fn row_blank(row: &Vec<String>) -> (r: bool)
    ensures
        r == blank_row(row.deep_view()),
{
    let n = row.len();
    for j in 0..n
        invariant
            n == row.len(),
            forall|k: int| 0 <= k < j ==> all_ws(#[trigger] row.deep_view()[k]),
    {
        if !is_blank(row[j].as_str()) {
            assert(!all_ws(row.deep_view()[j as int]));
            return false;
        }
    }
    true
}

/// The cell at an index, or empty when the row is shorter.
fn get_cell(row: &Vec<String>, j: usize) -> (r: String)
    ensures
        r@ == cell_or_empty(row.deep_view(), j as int),
{
    if j < row.len() {
        row[j].clone()
    } else {
        String::new()
    }
}

/// Sections normalized rows into the payload parts; see [`section_rows`].
pub fn parse_csv_payload(rows: &Vec<Vec<String>>) -> (r: CsvPayload)
    ensures
        r@ == section_rows(rows.deep_view(), empty_payload()),
{
    let ghost rs = rows.deep_view();
    let mut meta: Vec<(String, String)> = Vec::new();
    let mut parameter: Vec<(String, String)> = Vec::new();
    let mut next_position: Option<String> = None;
    let mut db: Option<String> = None;
    let mut data_header: Vec<String> = Vec::new();
    let mut data_rows: Vec<Vec<String>> = Vec::new();
    let n = rows.len();
    let ghost goal = section_rows(rs, empty_payload());
    proof {
        assert(rs.skip(0) =~= rs);
        assert(meta.deep_view() =~= Seq::<(Seq<char>, Seq<char>)>::empty());
        assert(parameter.deep_view() =~= Seq::<(Seq<char>, Seq<char>)>::empty());
        assert(data_header.deep_view() =~= Seq::<Seq<char>>::empty());
        assert(data_rows.deep_view() =~= Seq::<Seq<Seq<char>>>::empty());
    }
    let mut i: usize = 0;
    while i < n
        invariant
            n == rows.len(),
            rs == rows.deep_view(),
            i <= n,
            goal == section_rows(rs, empty_payload()),
            goal == section_rows(
                rs.skip(i as int),
                CsvPayloadView {
                    meta: meta.deep_view(),
                    parameter: parameter.deep_view(),
                    next_position: match next_position {
                        Some(s) => Some(s@),
                        None => None,
                    },
                    db: match db {
                        Some(s) => Some(s@),
                        None => None,
                    },
                    data_header: data_header.deep_view(),
                    data_rows: data_rows.deep_view(),
                },
            ),
            data_header.deep_view().len() == 0,
            data_rows.deep_view().len() == 0,
        decreases n - i,
    {
        proof {
            assert(rs.skip(i as int)[0] == rs[i as int]);
            assert(rs.skip(i as int).drop_first() =~= rs.skip(i + 1));
        }
        let row = &rows[i];
        if row_blank(row) {
            i = i + 1;
            continue ;
        }
        let first = get_cell(row, 0);
        let key = upper_string(trim_str(first.as_str()).as_str());
        if crate::text::str_eq(key.as_str(), "STATUS") || crate::text::str_eq(
            key.as_str(),
            "MESSAGEID",
        ) || crate::text::str_eq(key.as_str(), "MESSAGE") || crate::text::str_eq(
            key.as_str(),
            "DATE",
        ) {
            let value = get_cell(row, 1);
            crate::decode_common::assoc_insert_string(&mut meta, key, value);
        } else if crate::text::str_eq(key.as_str(), "PARAMETER") {
            let name_cell = get_cell(row, 1);
            let name = upper_string(trim_str(name_cell.as_str()).as_str());
            if name.unicode_len() > 0 {
                let value = get_cell(row, 2);
                crate::decode_common::assoc_insert_string(&mut parameter, name, value);
            }
        } else if crate::text::str_eq(key.as_str(), "NEXTPOSITION") {
            next_position = Some(get_cell(row, 1));
        } else if crate::text::str_eq(key.as_str(), "DB") {
            db = if row.len() > 1 {
                Some(row[1].clone())
            } else {
                None
            };
        } else if crate::text::str_eq(key.as_str(), "SERIES_CODE") {
            data_header = row.clone();
            assert(data_header.deep_view() =~= rs[i as int]);
            let mut k: usize = i + 1;
            proof {
                assert(rs.skip(i + 1).take(0) =~= Seq::<Seq<Seq<char>>>::empty());
                assert(keep_data_rows(rs.skip(i + 1).take(0)) =~= Seq::<
                    Seq<Seq<char>>,
                >::empty());
            }
            while k < n
                invariant
                    n == rows.len(),
                    rs == rows.deep_view(),
                    i + 1 <= k <= n,
                    data_rows.deep_view() == keep_data_rows(rs.skip(i + 1).take(k - i - 1)),
                decreases n - k,
            {
                proof {
                    assert(rs.skip(i + 1).take(k - i).drop_last() =~= rs.skip(i + 1).take(
                        k - i - 1,
                    ));
                    assert(rs.skip(i + 1).take(k - i)[k - i - 1] == rs[k as int]);
                }
                if !row_blank(&rows[k]) {
                    let ghost before = data_rows.deep_view();
                    data_rows.push(rows[k].clone());
                    assert(data_rows.deep_view() =~= before.push(rs[k as int]));
                }
                k = k + 1;
            }
            assert(rs.skip(i + 1).take(n - i - 1) =~= rs.skip(i + 1));
            return CsvPayload { meta, parameter, next_position, db, data_header, data_rows };
        }
        i = i + 1;
    }
    assert(rs.skip(n as int) =~= Seq::<Seq<Seq<char>>>::empty());
    CsvPayload { meta, parameter, next_position, db, data_header, data_rows }
}

} // verus!
