//! Crate-level laws: properties that relate several functions, stated over
//! the same models their contracts use and proved here once and for all.

use vstd::prelude::*;

use crate::csv_data::cell_or_empty;
use crate::decode_csv::{add_row, find_group, group_key, group_rows, GroupView};
use crate::json::{spec_normalize, JsonValue};
use crate::model::DataPointView;
use crate::options::{format_value, language_value, frequency_value};
use crate::query_code::{code_query_pairs, opt_pair, wf_code_query, CodeQueryView};
use crate::query_layer::{
    layer_list_str, layer_query_pairs, layer_value_str, wf_layer_query, LayerQueryView,
};
use crate::query_metadata::{metadata_query_pairs, wf_metadata_query, MetadataQueryView};
use crate::text::{
    all_ws, ci_equal, dec_str, join_comma, lemma_dec_str_parses, lemma_dec_str_value,
    lemma_split_join_comma, spec_parse_u32, split_comma, upper_seq,
};
use crate::validate::{
    forbidden_char, layer_token_result, valid_code, valid_db, valid_identifier, LayerValue,
};
use crate::wire::{lemma_pairs_lookup_append, pairs_has_key, pairs_lookup};

verus! {

// ---------------------------------------------------------------------------
// Wire-parameter lookups
// ---------------------------------------------------------------------------
proof fn lemma_opt_pair_lookup(k: Seq<char>, v: Option<Seq<char>>, key: Seq<char>)
    ensures
        pairs_has_key(opt_pair(k, v), key) == (v is Some && k == key),
        pairs_lookup(opt_pair(k, v), key) == (if v is Some && k == key {
            v
        } else {
            None
        }),
{
    match v {
        Some(x) => {
            assert(opt_pair(k, v) == seq![(k, x)]);
            assert(opt_pair(k, v)[0] == (k, x));
            if k == key {
                assert(pairs_has_key(opt_pair(k, v), key));
                assert(pairs_lookup(opt_pair(k, v), key) == Some(x));
            } else {
                assert(forall|i: int|
                    0 <= i < opt_pair(k, v).len() ==> (#[trigger] opt_pair(k, v)[i]).0 != key);
                let rest = opt_pair(k, v).drop_first();
                assert(rest.len() == 0);
                assert(pairs_lookup(rest, key) is None);
                assert(pairs_lookup(opt_pair(k, v), key) is None);
            }
        },
        None => {
            assert(opt_pair(k, v).len() == 0);
            assert(!pairs_has_key(opt_pair(k, v), key));
            assert(pairs_lookup(opt_pair(k, v), key) is None);
        },
    }
}

proof fn lemma_single_pair_lookup(k: Seq<char>, x: Seq<char>, key: Seq<char>)
    ensures
        pairs_has_key(seq![(k, x)], key) == (k == key),
        pairs_lookup(seq![(k, x)], key) == (if k == key {
            Some(x)
        } else {
            None::<Seq<char>>
        }),
{
    lemma_opt_pair_lookup(k, Some(x), key);
    assert(opt_pair(k, Some(x)) == seq![(k, x)]);
}

/// Looks one key up across the concatenation of two parameter segments.
proof fn lemma_lookup_two(
    a: Seq<(Seq<char>, Seq<char>)>,
    b: Seq<(Seq<char>, Seq<char>)>,
    key: Seq<char>,
)
    ensures
        pairs_has_key(a + b, key) == (pairs_has_key(a, key) || pairs_has_key(b, key)),
        pairs_lookup(a + b, key) == (if pairs_has_key(a, key) {
            pairs_lookup(a, key)
        } else {
            pairs_lookup(b, key)
        }),
{
    lemma_pairs_lookup_append(a, b, key);
    if pairs_has_key(a, key) {
        let i = choose|i: int| 0 <= i < a.len() && (#[trigger] a[i]).0 == key;
        assert((a + b)[i].0 == key);
        assert(pairs_has_key(a + b, key));
    }
    if pairs_has_key(b, key) {
        let i = choose|i: int| 0 <= i < b.len() && (#[trigger] b[i]).0 == key;
        assert((a + b)[a.len() + i].0 == key);
        assert(pairs_has_key(a + b, key));
    }
    if pairs_has_key(a + b, key) {
        let i = choose|i: int| 0 <= i < (a + b).len() && (#[trigger] (a + b)[i]).0 == key;
        if i < a.len() {
            assert(a[i].0 == key);
        } else {
            assert(b[i - a.len()].0 == key);
        }
    }
}

// ---------------------------------------------------------------------------
// Round trip: a built query reads back without loss
// ---------------------------------------------------------------------------
/// A decimal layer token reads back as the index it was written from, and
/// the wildcard as the wildcard: no layer selector is lost on the wire.
pub proof fn lemma_layer_token_round_trip(lv: LayerValue)
    requires
        lv matches LayerValue::Index(n) ==> n > 0,
    ensures
        layer_token_result(layer_value_str(lv)) == Some(lv),
{
    match lv {
        LayerValue::Wildcard => {
            let s = seq!['*'];
            assert(layer_value_str(lv) == s);
            assert(!all_ws(s)) by {
                assert(!crate::text::is_ws_char(s[0]));
            }
            assert(vstd::utf8::is_ascii_chars(s)) by {
                assert('\0' <= s[0] <= '\u{7f}');
            }
            assert(forall|i: int| 0 <= i < s.len() ==> !forbidden_char(#[trigger] s[i]));
            assert(valid_identifier(s));
        },
        LayerValue::Index(n) => {
            let s = dec_str(n as nat);
            lemma_dec_str_value(n as nat);
            lemma_dec_str_parses(n);
            assert(!all_ws(s)) by {
                assert('0' <= s[0] && s[0] <= '9');
                assert(!crate::text::is_ws_char(s[0]));
            }
            assert(vstd::utf8::is_ascii_chars(s)) by {
                assert(forall|i: int|
                    0 <= i < s.len() ==> '\0' <= #[trigger] s[i] <= '\u{7f}') by {
                    assert(forall|i: int|
                        0 <= i < s.len() ==> '0' <= #[trigger] s[i] && s[i] <= '9');
                }
            }
            assert(forall|i: int| 0 <= i < s.len() ==> !forbidden_char(#[trigger] s[i])) by {
                assert(forall|i: int|
                    0 <= i < s.len() ==> '0' <= #[trigger] s[i] && s[i] <= '9');
            }
            assert(valid_identifier(s));
            assert(s != seq!['*']) by {
                assert('0' <= s[0] && s[0] <= '9');
            }
        },
    }
}

proof fn code_lookup_at(v: CodeQueryView, key: Seq<char>)
    ensures
        pairs_lookup(code_query_pairs(v), key) == (if v.format is Some && "format"@ == key {
            Some(format_value(v.format->Some_0))
        } else if v.lang is Some && "lang"@ == key {
            Some(language_value(v.lang->Some_0))
        } else if "db"@ == key {
            Some(v.db)
        } else if v.start_date is Some && "startDate"@ == key {
            v.start_date
        } else if v.end_date is Some && "endDate"@ == key {
            v.end_date
        } else if "code"@ == key {
            Some(join_comma(v.codes))
        } else if v.start_position is Some && "startPosition"@ == key {
            Some(dec_str(v.start_position->Some_0 as nat))
        } else {
            None
        }),
{
    let o1 = match v.format {
        Some(f) => Some(format_value(f)),
        None => None,
    };
    let o2 = match v.lang {
        Some(l) => Some(language_value(l)),
        None => None,
    };
    let o7 = match v.start_position {
        Some(p) => Some(dec_str(p as nat)),
        None => None,
    };
    let s1 = opt_pair("format"@, o1);
    let s2 = opt_pair("lang"@, o2);
    let s3 = seq![("db"@, v.db)];
    let s4 = opt_pair("startDate"@, v.start_date);
    let s5 = opt_pair("endDate"@, v.end_date);
    let s6 = seq![("code"@, join_comma(v.codes))];
    let s7 = opt_pair("startPosition"@, o7);
    assert(code_query_pairs(v) == s1 + s2 + s3 + s4 + s5 + s6 + s7);
    lemma_lookup_two(s1 + s2 + s3 + s4 + s5 + s6, s7, key);
    lemma_lookup_two(s1 + s2 + s3 + s4 + s5, s6, key);
    lemma_lookup_two(s1 + s2 + s3 + s4, s5, key);
    lemma_lookup_two(s1 + s2 + s3, s4, key);
    lemma_lookup_two(s1 + s2, s3, key);
    lemma_lookup_two(s1, s2, key);
    lemma_opt_pair_lookup("format"@, o1, key);
    lemma_opt_pair_lookup("lang"@, o2, key);
    lemma_single_pair_lookup("db"@, v.db, key);
    lemma_opt_pair_lookup("startDate"@, v.start_date, key);
    lemma_opt_pair_lookup("endDate"@, v.end_date, key);
    lemma_single_pair_lookup("code"@, join_comma(v.codes), key);
    lemma_opt_pair_lookup("startPosition"@, o7, key);
}

/// Round trip of a built by-code query: its ordered parameter list carries
/// every validated field back unchanged — the database code, each date, the
/// start position (re-parsing its decimal text), and the comma-joined code
/// list, which splits back into exactly the codes that were validated.
pub proof fn lemma_code_query_round_trip(v: CodeQueryView)
    requires
        wf_code_query(v),
    ensures
        pairs_lookup(code_query_pairs(v), "db"@) == Some(v.db),
        pairs_lookup(code_query_pairs(v), "code"@) == Some(join_comma(v.codes)),
        split_comma(join_comma(v.codes)) == v.codes,
        v.start_date matches Some(d) ==> pairs_lookup(code_query_pairs(v), "startDate"@)
            == Some(d),
        v.end_date matches Some(d) ==> pairs_lookup(code_query_pairs(v), "endDate"@) == Some(
            d,
        ),
        v.format matches Some(f) ==> pairs_lookup(code_query_pairs(v), "format"@) == Some(
            format_value(f),
        ),
        v.lang matches Some(l) ==> pairs_lookup(code_query_pairs(v), "lang"@) == Some(
            language_value(l),
        ),
        v.start_position matches Some(p) ==> pairs_lookup(code_query_pairs(v), "startPosition"@)
            == Some(dec_str(p as nat)) && spec_parse_u32(dec_str(p as nat)) == Some(p),
{
    reveal_strlit("format");
    reveal_strlit("lang");
    reveal_strlit("db");
    reveal_strlit("startDate");
    reveal_strlit("endDate");
    reveal_strlit("code");
    reveal_strlit("startPosition");
    assert(("format"@).len() == 6);
    assert(("lang"@).len() == 4);
    assert(("db"@).len() == 2);
    assert(("startDate"@).len() == 9);
    assert(("endDate"@).len() == 7);
    assert(("code"@).len() == 4);
    assert(("startPosition"@).len() == 13);
    assert(("lang"@)[0] != ("code"@)[0]);
    code_lookup_at(v, "db"@);
    code_lookup_at(v, "code"@);
    code_lookup_at(v, "format"@);
    code_lookup_at(v, "lang"@);
    code_lookup_at(v, "startDate"@);
    code_lookup_at(v, "endDate"@);
    code_lookup_at(v, "startPosition"@);
    assert(forall|i: int|
        0 <= i < v.codes.len() ==> !(#[trigger] v.codes[i]).contains(',')) by {
        assert(forall|i: int| 0 <= i < v.codes.len() ==> valid_code(#[trigger] v.codes[i]));
    }
    lemma_split_join_comma(v.codes);
    if v.start_position is Some {
        lemma_dec_str_parses(v.start_position->Some_0);
    }
}

proof fn layer_lookup_at(v: LayerQueryView, key: Seq<char>)
    ensures
        pairs_lookup(layer_query_pairs(v), key) == (if v.format is Some && "format"@ == key {
            Some(format_value(v.format->Some_0))
        } else if v.lang is Some && "lang"@ == key {
            Some(language_value(v.lang->Some_0))
        } else if "db"@ == key {
            Some(v.db)
        } else if "frequency"@ == key {
            Some(frequency_value(v.frequency))
        } else if "layer"@ == key {
            Some(layer_list_str(v.layers))
        } else if v.start_date is Some && "startDate"@ == key {
            v.start_date
        } else if v.end_date is Some && "endDate"@ == key {
            v.end_date
        } else if v.start_position is Some && "startPosition"@ == key {
            Some(dec_str(v.start_position->Some_0 as nat))
        } else {
            None
        }),
{
    let o1 = match v.format {
        Some(f) => Some(format_value(f)),
        None => None,
    };
    let o2 = match v.lang {
        Some(l) => Some(language_value(l)),
        None => None,
    };
    let o8 = match v.start_position {
        Some(p) => Some(dec_str(p as nat)),
        None => None,
    };
    let s1 = opt_pair("format"@, o1);
    let s2 = opt_pair("lang"@, o2);
    let s3 = seq![("db"@, v.db)];
    let s4 = seq![("frequency"@, frequency_value(v.frequency))];
    let s5 = seq![("layer"@, layer_list_str(v.layers))];
    let s6 = opt_pair("startDate"@, v.start_date);
    let s7 = opt_pair("endDate"@, v.end_date);
    let s8 = opt_pair("startPosition"@, o8);
    assert(layer_query_pairs(v) == s1 + s2 + s3 + s4 + s5 + s6 + s7 + s8);
    lemma_lookup_two(s1 + s2 + s3 + s4 + s5 + s6 + s7, s8, key);
    lemma_lookup_two(s1 + s2 + s3 + s4 + s5 + s6, s7, key);
    lemma_lookup_two(s1 + s2 + s3 + s4 + s5, s6, key);
    lemma_lookup_two(s1 + s2 + s3 + s4, s5, key);
    lemma_lookup_two(s1 + s2 + s3, s4, key);
    lemma_lookup_two(s1 + s2, s3, key);
    lemma_lookup_two(s1, s2, key);
    lemma_opt_pair_lookup("format"@, o1, key);
    lemma_opt_pair_lookup("lang"@, o2, key);
    lemma_single_pair_lookup("db"@, v.db, key);
    lemma_single_pair_lookup("frequency"@, frequency_value(v.frequency), key);
    lemma_single_pair_lookup("layer"@, layer_list_str(v.layers), key);
    lemma_opt_pair_lookup("startDate"@, v.start_date, key);
    lemma_opt_pair_lookup("endDate"@, v.end_date, key);
    lemma_opt_pair_lookup("startPosition"@, o8, key);
}

/// Round trip of a built by-layer query: the database code, frequency, each
/// date and the start position read back unchanged, and the comma-joined
/// layer list splits back into tokens that re-parse to exactly the validated
/// layer selectors.
pub proof fn lemma_layer_query_round_trip(v: LayerQueryView)
    requires
        wf_layer_query(v),
    ensures
        pairs_lookup(layer_query_pairs(v), "db"@) == Some(v.db),
        pairs_lookup(layer_query_pairs(v), "frequency"@) == Some(frequency_value(v.frequency)),
        pairs_lookup(layer_query_pairs(v), "layer"@) == Some(layer_list_str(v.layers)),
        split_comma(layer_list_str(v.layers)) == v.layers.map_values(
            |lv: LayerValue| layer_value_str(lv),
        ),
        forall|i: int|
            0 <= i < v.layers.len() ==> layer_token_result(
                layer_value_str(#[trigger] v.layers[i]),
            ) == Some(v.layers[i]),
        v.start_date matches Some(d) ==> pairs_lookup(layer_query_pairs(v), "startDate"@)
            == Some(d),
        v.end_date matches Some(d) ==> pairs_lookup(layer_query_pairs(v), "endDate"@) == Some(
            d,
        ),
        v.start_position matches Some(p) ==> pairs_lookup(
            layer_query_pairs(v),
            "startPosition"@,
        ) == Some(dec_str(p as nat)) && spec_parse_u32(dec_str(p as nat)) == Some(p),
{
    reveal_strlit("format");
    reveal_strlit("lang");
    reveal_strlit("db");
    reveal_strlit("frequency");
    reveal_strlit("layer");
    reveal_strlit("startDate");
    reveal_strlit("endDate");
    reveal_strlit("startPosition");
    assert(("format"@).len() == 6);
    assert(("lang"@).len() == 4);
    assert(("db"@).len() == 2);
    assert(("frequency"@).len() == 9);
    assert(("layer"@).len() == 5);
    assert(("startDate"@).len() == 9);
    assert(("endDate"@).len() == 7);
    assert(("startPosition"@).len() == 13);
    assert(("frequency"@)[0] != ("startDate"@)[0]);
    layer_lookup_at(v, "db"@);
    layer_lookup_at(v, "frequency"@);
    layer_lookup_at(v, "layer"@);
    layer_lookup_at(v, "startDate"@);
    layer_lookup_at(v, "endDate"@);
    layer_lookup_at(v, "startPosition"@);
    if v.start_position is Some {
        lemma_dec_str_parses(v.start_position->Some_0);
    }
    let tokens = v.layers.map_values(|lv: LayerValue| layer_value_str(lv));
    assert(tokens.len() == v.layers.len());
    assert forall|i: int| 0 <= i < v.layers.len() implies layer_token_result(
        layer_value_str(#[trigger] v.layers[i]),
    ) == Some(v.layers[i]) by {
        lemma_layer_token_round_trip(v.layers[i]);
    }
    assert forall|i: int| 0 <= i < tokens.len() implies !(#[trigger] tokens[i]).contains(
        ',',
    ) by {
        lemma_layer_token_round_trip(v.layers[i]);
        if tokens[i].contains(',') {
            let j = choose|j: int| 0 <= j < tokens[i].len() && tokens[i][j] == ',';
            match v.layers[i] {
                LayerValue::Wildcard => {
                    assert(tokens[i] == seq!['*']);
                },
                LayerValue::Index(n) => {
                    lemma_dec_str_value(n as nat);
                    assert(tokens[i] == dec_str(n as nat));
                    assert('0' <= tokens[i][j] && tokens[i][j] <= '9');
                },
            }
        }
    }
    lemma_split_join_comma(tokens);
}

/// Round trip of a built metadata query: the database code reads back
/// unchanged, and still passes validation.
pub proof fn lemma_metadata_query_round_trip(v: MetadataQueryView)
    requires
        wf_metadata_query(v),
    ensures
        pairs_lookup(metadata_query_pairs(v), "db"@) == Some(v.db),
        valid_db(v.db),
{
    reveal_strlit("format");
    reveal_strlit("lang");
    reveal_strlit("db");
    assert(("format"@).len() == 6);
    assert(("db"@).len() == 2);
    assert("format"@ != "db"@);
    assert("lang"@ != "db"@);
    let o1 = match v.format {
        Some(f) => Some(format_value(f)),
        None => None,
    };
    let o2 = match v.lang {
        Some(l) => Some(language_value(l)),
        None => None,
    };
    let s1 = opt_pair("format"@, o1);
    let s2 = opt_pair("lang"@, o2);
    let s3 = seq![("db"@, v.db)];
    assert(metadata_query_pairs(v) == s1 + s2 + s3);
    lemma_lookup_two(s1 + s2, s3, "db"@);
    lemma_lookup_two(s1, s2, "db"@);
    lemma_opt_pair_lookup("format"@, o1, "db"@);
    lemma_opt_pair_lookup("lang"@, o2, "db"@);
    lemma_single_pair_lookup("db"@, v.db, "db"@);
}

// ---------------------------------------------------------------------------
// Tabular grouping
// ---------------------------------------------------------------------------
/// The observation one data row contributes.
pub open spec fn row_point(row: Seq<Seq<char>>, sui: int, vi: int) -> DataPointView {
    DataPointView {
        survey_date: spec_normalize(cell_or_empty(row, sui))->Some_0,
        value: spec_normalize(cell_or_empty(row, vi)),
    }
}

/// A data row the grouping accepts: a non-blank series-code cell and a
/// survey-date cell that normalizes to something.
pub open spec fn groupable_row(row: Seq<Seq<char>>, si: int, sui: int) -> bool {
    !all_ws(cell_or_empty(row, si)) && spec_normalize(cell_or_empty(row, sui)) is Some
}

/// Rows sharing all columns except the survey-date and value columns land in
/// one series: grouping them yields a single group holding one observation
/// per row, in row order.
pub proof fn lemma_grouping_single_key(
    rows: Seq<Seq<Seq<char>>>,
    ncols: int,
    si: int,
    sui: int,
    vi: int,
    key: Seq<Seq<char>>,
)
    requires
        rows.len() > 0,
        forall|i: int| 0 <= i < rows.len() ==> groupable_row(#[trigger] rows[i], si, sui),
        forall|i: int|
            0 <= i < rows.len() ==> group_key(#[trigger] rows[i], ncols, sui, vi) == key,
    ensures
        group_rows(rows, ncols, si, sui, vi) matches Ok(gs) && gs.len() == 1 && gs[0].key
            == key && gs[0].first_row == rows[0] && gs[0].points.len() == rows.len() && (forall|
            i: int,
        |
            0 <= i < rows.len() ==> gs[0].points[i] == row_point(#[trigger] rows[i], sui, vi)),
    decreases rows.len(),
{
    if rows.len() == 1 {
        assert(rows.drop_last().len() == 0);
        let gs0 = Seq::<GroupView>::empty();
        assert(group_rows(rows.drop_last(), ncols, si, sui, vi) == Ok::<Seq<GroupView>, ()>(
            gs0,
        ));
        assert(find_group(gs0, key) is None);
        let r = add_row(gs0, rows[0], ncols, si, sui, vi);
        assert(r matches Ok(gs) && gs.len() == 1 && gs[0].points =~= seq![
            row_point(rows[0], sui, vi),
        ]);
    } else {
        let front = rows.drop_last();
        assert(forall|i: int|
            0 <= i < front.len() ==> groupable_row(#[trigger] front[i], si, sui)) by {
            assert(forall|i: int| 0 <= i < front.len() ==> front[i] == #[trigger] rows[i]);
        }
        assert(forall|i: int|
            0 <= i < front.len() ==> group_key(#[trigger] front[i], ncols, sui, vi) == key)
            by {
            assert(forall|i: int| 0 <= i < front.len() ==> front[i] == #[trigger] rows[i]);
        }
        assert(front[0] == rows[0]);
        lemma_grouping_single_key(front, ncols, si, sui, vi, key);
        let gs = group_rows(front, ncols, si, sui, vi)->Ok_0;
        let last = rows[rows.len() - 1];
        assert(group_key(last, ncols, sui, vi) == key);
        assert(find_group(gs, key) == Some(0int)) by {
            assert(gs[0].key == key);
        }
        let updated = gs.update(
            0,
            GroupView {
                key: gs[0].key,
                first_row: gs[0].first_row,
                points: gs[0].points.push(row_point(last, sui, vi)),
            },
        );
        assert(add_row(gs, last, ncols, si, sui, vi) == Ok::<Seq<GroupView>, ()>(updated));
        assert(updated.len() == 1);
        assert(forall|i: int|
            0 <= i < rows.len() ==> updated[0].points[i] == row_point(
                #[trigger] rows[i],
                sui,
                vi,
            )) by {
            assert(forall|i: int| 0 <= i < front.len() ==> front[i] == #[trigger] rows[i]);
            assert(updated[0].points.len() == rows.len());
        }
    }
}

/// Rows differing in some column other than the survey-date and value
/// columns stay apart: grouping rows with pairwise distinct keys yields one
/// group per row, in row order, each holding that row's one observation.
pub proof fn lemma_grouping_distinct_keys(
    rows: Seq<Seq<Seq<char>>>,
    ncols: int,
    si: int,
    sui: int,
    vi: int,
)
    requires
        forall|i: int| 0 <= i < rows.len() ==> groupable_row(#[trigger] rows[i], si, sui),
        forall|i: int, j: int|
            0 <= i < j < rows.len() ==> group_key(#[trigger] rows[i], ncols, sui, vi)
                != group_key(#[trigger] rows[j], ncols, sui, vi),
    ensures
        group_rows(rows, ncols, si, sui, vi) matches Ok(gs) && gs.len() == rows.len() && (
        forall|i: int|
            0 <= i < rows.len() ==> (#[trigger] gs[i]).key == group_key(rows[i], ncols, sui, vi)
                && gs[i].first_row == rows[i] && gs[i].points == seq![
                row_point(rows[i], sui, vi),
            ]),
    decreases rows.len(),
{
    if rows.len() == 0 {
    } else {
        let front = rows.drop_last();
        assert(forall|i: int|
            0 <= i < front.len() ==> groupable_row(#[trigger] front[i], si, sui)) by {
            assert(forall|i: int| 0 <= i < front.len() ==> front[i] == #[trigger] rows[i]);
        }
        assert(forall|i: int, j: int|
            0 <= i < j < front.len() ==> group_key(#[trigger] front[i], ncols, sui, vi)
                != group_key(#[trigger] front[j], ncols, sui, vi)) by {
            assert(forall|i: int| 0 <= i < front.len() ==> front[i] == #[trigger] rows[i]);
        }
        lemma_grouping_distinct_keys(front, ncols, si, sui, vi);
        let gs = group_rows(front, ncols, si, sui, vi)->Ok_0;
        let last = rows[rows.len() - 1];
        let key = group_key(last, ncols, sui, vi);
        assert(forall|j: int| 0 <= j < gs.len() ==> (#[trigger] gs[j]).key != key) by {
            assert(forall|i: int| 0 <= i < front.len() ==> front[i] == #[trigger] rows[i]);
        }
        crate::decode_csv::lemma_find_group_none(gs, key);
        let pushed = gs.push(
            GroupView { key, first_row: last, points: seq![row_point(last, sui, vi)] },
        );
        assert(add_row(gs, last, ncols, si, sui, vi) == Ok::<Seq<GroupView>, ()>(pushed));
        assert(forall|i: int|
            0 <= i < rows.len() ==> (#[trigger] pushed[i]).key == group_key(
                rows[i],
                ncols,
                sui,
                vi,
            ) && pushed[i].first_row == rows[i] && pushed[i].points == seq![
                row_point(rows[i], sui, vi),
            ]) by {
            assert(forall|i: int| 0 <= i < front.len() ==> front[i] == #[trigger] rows[i]);
            assert(forall|i: int| 0 <= i < gs.len() ==> pushed[i] == #[trigger] gs[i]);
        }
    }
}

// ---------------------------------------------------------------------------
// Cross-format agreement: shared renderings
// ---------------------------------------------------------------------------
/// The tabular cell standing for an optional value: the text, or an empty
/// cell for a missing observation.
pub open spec fn value_cell(v: Option<Seq<char>>) -> Seq<char> {
    match v {
        Some(t) => t,
        None => Seq::empty(),
    }
}

/// Whether one result row renders the series: a two-entry object carrying
/// `SERIES_CODE` and a `VALUES` object with the two aligned arrays.
pub open spec fn row_renders_series(
    row: JsonValue,
    code: Seq<char>,
    dates: Seq<Seq<char>>,
    vals: Seq<Option<Seq<char>>>,
) -> bool {
    match row {
        JsonValue::Object(re) => {
            let r = re@;
            &&& r.len() == 2
            &&& r[0].0@ == "SERIES_CODE"@
            &&& (r[0].1 matches JsonValue::Text(t) && t@ == code)
            &&& r[1].0@ == "VALUES"@
            &&& (match r[1].1 {
                JsonValue::Object(ve) => {
                    let v = ve@;
                    &&& v.len() == 2
                    &&& v[0].0@ == "SURVEY_DATES"@
                    &&& (match v[0].1 {
                        JsonValue::Array(ds) => ds@.len() == dates.len() && forall|i: int|
                            0 <= i < dates.len() ==> (#[trigger] ds@[i] matches
                                JsonValue::Text(t) && t@ == dates[i]),
                        _ => false,
                    })
                    &&& v[1].0@ == "VALUES"@
                    &&& (match v[1].1 {
                        JsonValue::Array(vs) => vs@.len() == vals.len() && forall|i: int|
                            0 <= i < vals.len() ==> (match vals[i] {
                                Some(t) => #[trigger] vs@[i] matches JsonValue::Text(x) && x@
                                    == t,
                                None => vs@[i] is Null,
                            }),
                        _ => false,
                    })
                },
                _ => false,
            })
        },
        _ => false,
    }
}

/// Series data in the exact form both wire formats carry it: the code and
/// every date already trimmed and non-blank, and every present value too, so
/// that neither format's normalization changes anything.
pub open spec fn tidy_series_data(
    code: Seq<char>,
    dates: Seq<Seq<char>>,
    vals: Seq<Option<Seq<char>>>,
) -> bool {
    &&& !all_ws(code) && crate::text::spec_trim(code) == code
    &&& dates.len() == vals.len()
    &&& dates.len() > 0
    &&& (forall|i: int|
        0 <= i < dates.len() ==> !all_ws(#[trigger] dates[i]) && crate::text::spec_trim(
            dates[i],
        ) == dates[i])
    &&& (forall|i: int|
        0 <= i < vals.len() ==> (#[trigger] vals[i] matches Some(t) ==> !all_ws(t)
            && crate::text::spec_trim(t) == t))
}

proof fn lemma_ci_equal_refl(a: Seq<char>)
    ensures
        ci_equal(a, a),
{
}

proof fn lemma_points_eval(
    ds: Seq<JsonValue>,
    vs: Seq<JsonValue>,
    dates: Seq<Seq<char>>,
    vals: Seq<Option<Seq<char>>>,
)
    requires
        ds.len() == dates.len(),
        vs.len() == vals.len(),
        dates.len() == vals.len(),
        forall|i: int|
            0 <= i < dates.len() ==> (#[trigger] ds[i] matches JsonValue::Text(t) && t@
                == dates[i]),
        forall|i: int|
            0 <= i < vals.len() ==> (match vals[i] {
                Some(t) => #[trigger] vs[i] matches JsonValue::Text(x) && x@ == t,
                None => vs[i] is Null,
            }),
    ensures
        crate::decode_json::spec_points_arrays(ds, vs) matches Ok(pts) && pts.len()
            == dates.len() && (forall|i: int|
            0 <= i < dates.len() ==> #[trigger] pts[i] == (DataPointView {
                survey_date: dates[i],
                value: vals[i],
            })),
    decreases ds.len(),
{
    if ds.len() > 0 {
        let n = ds.len() - 1;
        assert(forall|i: int|
            0 <= i < n ==> ds.drop_last()[i] == #[trigger] ds[i] && vs.drop_last()[i]
                == vs[i]);
        lemma_points_eval(ds.drop_last(), vs.drop_last(), dates.drop_last(), vals.drop_last());
        assert(vals[n] matches Some(t) ==> (vs[n] matches JsonValue::Text(x) && x@ == t));
        let pts = crate::decode_json::spec_points_arrays(ds.drop_last(), vs.drop_last())->Ok_0;
        assert(crate::decode_json::spec_point(ds[n], vs[n]) == Ok::<DataPointView, ()>(
            DataPointView { survey_date: dates[n], value: vals[n] },
        ));
        assert(forall|i: int|
            0 <= i < n ==> #[trigger] pts.push(
                DataPointView { survey_date: dates[n], value: vals[n] },
            )[i] == pts[i]);
    }
}

proof fn lemma_row_series_eval(
    row: JsonValue,
    code: Seq<char>,
    dates: Seq<Seq<char>>,
    vals: Seq<Option<Seq<char>>>,
)
    requires
        row_renders_series(row, code, dates, vals),
        tidy_series_data(code, dates, vals),
    ensures
        crate::decode_json::spec_series_row(row) matches Ok(sv) && sv.series_code == code
            && sv.points.len() == dates.len() && (forall|i: int|
            0 <= i < dates.len() ==> #[trigger] sv.points[i] == (DataPointView {
                survey_date: dates[i],
                value: vals[i],
            })) && sv.extras.len() == 0,
{
    reveal_strlit("SERIES_CODE");
    reveal_strlit("VALUES");
    reveal_strlit("SURVEY_DATES");
    reveal_strlit("NAME_OF_TIME_SERIES_J");
    reveal_strlit("NAME_OF_TIME_SERIES");
    reveal_strlit("UNIT_J");
    reveal_strlit("UNIT");
    reveal_strlit("FREQUENCY");
    reveal_strlit("CATEGORY_J");
    reveal_strlit("CATEGORY");
    reveal_strlit("LAST_UPDATE");
    let re = match row {
        JsonValue::Object(re) => re@,
        _ => Seq::empty(),
    };
    assert(re.len() == 2);
    crate::text::lemma_trim_props(code);
    // The required series code.
    lemma_ci_equal_refl("SERIES_CODE"@);
    assert(crate::json::spec_get_ci(re, "SERIES_CODE"@) == Some(re[0].1));
    assert(crate::decode_json::spec_required_non_empty(re, "SERIES_CODE"@) == Ok::<
        Seq<char>,
        (),
    >(code));
    // The observations under the VALUES object.
    assert(!ci_equal(re[0].0@, "VALUES"@)) by {
        assert(("SERIES_CODE"@).len() == 11);
        assert(("VALUES"@).len() == 6);
    }
    assert(re.drop_first() =~= seq![re[1]]);
    lemma_ci_equal_refl("VALUES"@);
    assert(crate::json::spec_get_ci(re.drop_first(), "VALUES"@) == Some(re[1].1)) by {
        assert(re.drop_first()[0] == re[1]);
        assert(ci_equal(re[1].0@, "VALUES"@));
    }
    assert(crate::json::spec_get_ci(re, "VALUES"@) == Some(re[1].1));
    let ve = match re[1].1 {
        JsonValue::Object(ve) => ve@,
        _ => Seq::empty(),
    };
    lemma_ci_equal_refl("SURVEY_DATES"@);
    assert(crate::json::spec_get_ci(ve, "SURVEY_DATES"@) == Some(ve[0].1));
    assert(!ci_equal(ve[0].0@, "VALUES"@)) by {
        assert(("SURVEY_DATES"@).len() == 12);
    }
    assert(ve.drop_first() =~= seq![ve[1]]);
    assert(crate::json::spec_get_ci(ve.drop_first(), "VALUES"@) == Some(ve[1].1)) by {
        assert(ve.drop_first()[0] == ve[1]);
        assert(ci_equal(ve[1].0@, "VALUES"@));
    }
    assert(crate::json::spec_get_ci(ve, "VALUES"@) == Some(ve[1].1));
    let ds = match ve[0].1 {
        JsonValue::Array(ds) => ds@,
        _ => Seq::empty(),
    };
    let vs = match ve[1].1 {
        JsonValue::Array(vs) => vs@,
        _ => Seq::empty(),
    };
    lemma_points_eval(ds, vs, dates, vals);
    assert(crate::decode_json::spec_parse_points(re) == crate::decode_json::spec_points_arrays(
        ds,
        vs,
    ));
    // No unrecognized fields: both keys are dedicated.
    let known = crate::decode_json::series_known_keys();
    assert(crate::decode_json::ci_member(known, "SERIES_CODE"@)) by {
        assert(ci_equal(known[0], "SERIES_CODE"@));
    }
    assert(crate::decode_json::ci_member(known, "VALUES"@)) by {
        assert(ci_equal(known[9], "VALUES"@));
    }
    assert(crate::decode_json::spec_collect_extras(
        Seq::<(String, JsonValue)>::empty(),
        known,
    ) == Ok::<Seq<(Seq<char>, Option<Seq<char>>)>, ()>(Seq::empty()));
    assert(crate::decode_json::spec_collect_extras(seq![re[0]], known) == Ok::<
        Seq<(Seq<char>, Option<Seq<char>>)>,
        (),
    >(Seq::empty())) by {
        assert(seq![re[0]].drop_last() =~= Seq::<(String, JsonValue)>::empty());
        assert(seq![re[0]][0] == re[0]);
        assert(crate::decode_json::ci_member(known, re[0].0@)) by {
            assert(ci_equal(known[0], re[0].0@));
        }
    }
    assert(crate::decode_json::spec_collect_extras(re, known) == Ok::<
        Seq<(Seq<char>, Option<Seq<char>>)>,
        (),
    >(Seq::empty())) by {
        assert(re.drop_last() =~= seq![re[0]]);
        assert(re[re.len() - 1] == re[1]);
        assert(crate::decode_json::ci_member(known, re[1].0@)) by {
            assert(ci_equal(known[9], re[1].0@));
        }
    }
    // Every optional label is absent.
    assert forall|name: Seq<char>|
        !ci_equal(re[0].0@, name) && !ci_equal(re[1].0@, name) implies crate::json::spec_get_ci(
        re,
        name,
    ) is None by {
        assert(seq![re[1]][0] == re[1]);
        assert(seq![re[1]].drop_first() =~= Seq::<(String, JsonValue)>::empty());
        assert(crate::json::spec_get_ci(Seq::<(String, JsonValue)>::empty(), name) is None);
        assert(crate::json::spec_get_ci(seq![re[1]], name) is None);
        assert(re.drop_first() =~= seq![re[1]]);
    }
    assert(!ci_equal(re[0].0@, "NAME_OF_TIME_SERIES_J"@) && !ci_equal(
        re[1].0@,
        "NAME_OF_TIME_SERIES_J"@,
    )) by {
        assert(("NAME_OF_TIME_SERIES_J"@).len() == 21);
    }
    assert(!ci_equal(re[0].0@, "NAME_OF_TIME_SERIES"@) && !ci_equal(
        re[1].0@,
        "NAME_OF_TIME_SERIES"@,
    )) by {
        assert(("NAME_OF_TIME_SERIES"@).len() == 19);
    }
    assert(!ci_equal(re[0].0@, "UNIT_J"@) && !ci_equal(re[1].0@, "UNIT_J"@)) by {
        assert(crate::text::lower_char(("UNIT_J"@)[0]) != crate::text::lower_char(
            ("VALUES"@)[0],
        ));
    }
    assert(!ci_equal(re[0].0@, "UNIT"@) && !ci_equal(re[1].0@, "UNIT"@)) by {
        assert(("UNIT"@).len() == 4);
    }
    assert(!ci_equal(re[0].0@, "FREQUENCY"@) && !ci_equal(re[1].0@, "FREQUENCY"@)) by {
        assert(("FREQUENCY"@).len() == 9);
    }
    assert(!ci_equal(re[0].0@, "CATEGORY_J"@) && !ci_equal(re[1].0@, "CATEGORY_J"@)) by {
        assert(("CATEGORY_J"@).len() == 10);
    }
    assert(!ci_equal(re[0].0@, "CATEGORY"@) && !ci_equal(re[1].0@, "CATEGORY"@)) by {
        assert(("CATEGORY"@).len() == 8);
    }
    assert(!ci_equal(re[0].0@, "LAST_UPDATE"@) && !ci_equal(re[1].0@, "LAST_UPDATE"@)) by {
        assert(crate::text::lower_char(("LAST_UPDATE"@)[0]) != crate::text::lower_char(
            ("SERIES_CODE"@)[0],
        ));
        assert(("LAST_UPDATE"@).len() == 11);
    }
}

proof fn lemma_caps_literal_fixed(s: Seq<char>)
    requires
        s.len() > 0,
        forall|i: int|
            0 <= i < s.len() ==> (('A' <= #[trigger] s[i] && s[i] <= 'Z') || s[i] == '_'),
    ensures
        crate::text::spec_trim(s) == s,
        upper_seq(s) == s,
{
    assert(!crate::text::is_ws_char(s[0]));
    assert(!crate::text::is_ws_char(s[s.len() - 1]));
    assert(crate::text::trim_start(s) == s);
    assert(crate::text::trim_end(s) == s);
    assert(upper_seq(s) =~= s) by {
        assert(forall|i: int|
            0 <= i < s.len() ==> crate::text::upper_char(#[trigger] s[i]) == s[i]);
    }
}

// ---------------------------------------------------------------------------
// Tabular grouping, characterized in full
// ---------------------------------------------------------------------------
/// The observations contributed by the rows bearing one identity key, in row
/// order.
pub open spec fn points_of_key(
    rows: Seq<Seq<Seq<char>>>,
    k: Seq<Seq<char>>,
    ncols: int,
    sui: int,
    vi: int,
) -> Seq<DataPointView>
    decreases rows.len(),
{
    if rows.len() == 0 {
        Seq::empty()
    } else {
        let rest = points_of_key(rows.drop_last(), k, ncols, sui, vi);
        if group_key(rows[rows.len() - 1], ncols, sui, vi) == k {
            rest.push(row_point(rows[rows.len() - 1], sui, vi))
        } else {
            rest
        }
    }
}

/// The position of the first row bearing one identity key.
pub open spec fn first_index_of_key(
    rows: Seq<Seq<Seq<char>>>,
    k: Seq<Seq<char>>,
    ncols: int,
    sui: int,
    vi: int,
) -> Option<int>
    decreases rows.len(),
{
    if rows.len() == 0 {
        None
    } else if group_key(rows[0], ncols, sui, vi) == k {
        Some(0)
    } else {
        match first_index_of_key(rows.drop_first(), k, ncols, sui, vi) {
            Some(i) => Some(i + 1),
            None => None,
        }
    }
}

proof fn lemma_first_index_bounds(
    rows: Seq<Seq<Seq<char>>>,
    k: Seq<Seq<char>>,
    ncols: int,
    sui: int,
    vi: int,
)
    ensures
        first_index_of_key(rows, k, ncols, sui, vi) matches Some(i) ==> 0 <= i < rows.len()
            && group_key(rows[i], ncols, sui, vi) == k,
    decreases rows.len(),
{
    if rows.len() > 0 && group_key(rows[0], ncols, sui, vi) != k {
        lemma_first_index_bounds(rows.drop_first(), k, ncols, sui, vi);
    }
}

proof fn lemma_first_index_push(
    rows: Seq<Seq<Seq<char>>>,
    x: Seq<Seq<char>>,
    k: Seq<Seq<char>>,
    ncols: int,
    sui: int,
    vi: int,
)
    ensures
        first_index_of_key(rows.push(x), k, ncols, sui, vi) == (match first_index_of_key(
            rows,
            k,
            ncols,
            sui,
            vi,
        ) {
            Some(i) => Some(i),
            None => if group_key(x, ncols, sui, vi) == k {
                Some(rows.len() as int)
            } else {
                None::<int>
            },
        }),
    decreases rows.len(),
{
    if rows.len() == 0 {
        assert(rows.push(x)[0] == x);
        assert(rows.push(x).drop_first() =~= Seq::<Seq<Seq<char>>>::empty());
    } else {
        assert(rows.push(x)[0] == rows[0]);
        assert(rows.push(x).drop_first() =~= rows.drop_first().push(x));
        lemma_first_index_push(rows.drop_first(), x, k, ncols, sui, vi);
    }
}

proof fn lemma_find_group_some(gs: Seq<GroupView>, k: Seq<Seq<char>>)
    ensures
        find_group(gs, k) matches Some(g) ==> 0 <= g < gs.len() && gs[g].key == k,
        find_group(gs, k) is None ==> forall|j: int|
            0 <= j < gs.len() ==> (#[trigger] gs[j]).key != k,
    decreases gs.len(),
{
    if gs.len() > 0 && gs[0].key != k {
        lemma_find_group_some(gs.drop_first(), k);
        if find_group(gs, k) is None {
            assert forall|j: int| 0 <= j < gs.len() implies (#[trigger] gs[j]).key != k by {
                if j > 0 {
                    assert(gs.drop_first()[j - 1] == gs[j]);
                }
            }
        }
    }
}

proof fn lemma_find_group_same_keys(gs1: Seq<GroupView>, gs2: Seq<GroupView>, k: Seq<Seq<char>>)
    requires
        gs1.len() == gs2.len(),
        forall|j: int| 0 <= j < gs1.len() ==> (#[trigger] gs1[j]).key == gs2[j].key,
    ensures
        find_group(gs1, k) == find_group(gs2, k),
    decreases gs1.len(),
{
    if gs1.len() > 0 {
        assert(gs1[0].key == gs2[0].key);
        assert(forall|j: int|
            0 <= j < gs1.drop_first().len() ==> (#[trigger] gs1.drop_first()[j]).key
                == gs2.drop_first()[j].key) by {
            assert(forall|j: int|
                0 <= j < gs1.drop_first().len() ==> gs1.drop_first()[j] == #[trigger] gs1[j
                    + 1] && gs2.drop_first()[j] == gs2[j + 1]);
        }
        lemma_find_group_same_keys(gs1.drop_first(), gs2.drop_first(), k);
    }
}

proof fn lemma_find_group_push(gs: Seq<GroupView>, g: GroupView, k: Seq<Seq<char>>)
    ensures
        find_group(gs.push(g), k) == (match find_group(gs, k) {
            Some(i) => Some(i),
            None => if g.key == k {
                Some(gs.len() as int)
            } else {
                None::<int>
            },
        }),
    decreases gs.len(),
{
    if gs.len() == 0 {
        assert(gs.push(g)[0] == g);
        assert(gs.push(g).drop_first() =~= Seq::<GroupView>::empty());
    } else {
        assert(gs.push(g)[0] == gs[0]);
        assert(gs.push(g).drop_first() =~= gs.drop_first().push(g));
        lemma_find_group_push(gs.drop_first(), g, k);
    }
}

proof fn lemma_points_of_key_absent(
    rows: Seq<Seq<Seq<char>>>,
    k: Seq<Seq<char>>,
    ncols: int,
    sui: int,
    vi: int,
)
    requires
        forall|i: int| 0 <= i < rows.len() ==> group_key(#[trigger] rows[i], ncols, sui, vi)
            != k,
    ensures
        points_of_key(rows, k, ncols, sui, vi) == Seq::<DataPointView>::empty(),
    decreases rows.len(),
{
    if rows.len() > 0 {
        assert(forall|i: int|
            0 <= i < rows.drop_last().len() ==> group_key(
                #[trigger] rows.drop_last()[i],
                ncols,
                sui,
                vi,
            ) != k) by {
            assert(forall|i: int|
                0 <= i < rows.drop_last().len() ==> rows.drop_last()[i] == #[trigger] rows[i]);
        }
        lemma_points_of_key_absent(rows.drop_last(), k, ncols, sui, vi);
    }
}

/// Everything the grouping guarantees: group keys are pairwise distinct;
/// every row's key has a group; each group's first row is the first row
/// bearing its key, and its observations are exactly those of the rows
/// bearing its key, in row order; and groups stand in first-seen key order.
pub open spec fn grouping_ok(
    rows: Seq<Seq<Seq<char>>>,
    gs: Seq<GroupView>,
    ncols: int,
    sui: int,
    vi: int,
) -> bool {
    &&& (forall|g1: int, g2: int|
        0 <= g1 < g2 < gs.len() ==> (#[trigger] gs[g1]).key != (#[trigger] gs[g2]).key)
    &&& (forall|i: int|
        0 <= i < rows.len() ==> find_group(
            gs,
            group_key(#[trigger] rows[i], ncols, sui, vi),
        ) is Some)
    &&& (forall|g: int|
        0 <= g < gs.len() ==> {
            let fi = first_index_of_key(rows, (#[trigger] gs[g]).key, ncols, sui, vi);
            fi is Some && gs[g].first_row == rows[fi->Some_0] && gs[g].points
                == points_of_key(rows, gs[g].key, ncols, sui, vi)
        })
    &&& (forall|g1: int, g2: int|
        0 <= g1 < g2 < gs.len() ==> first_index_of_key(
            rows,
            (#[trigger] gs[g1]).key,
            ncols,
            sui,
            vi,
        )->Some_0 < first_index_of_key(rows, (#[trigger] gs[g2]).key, ncols, sui, vi)->Some_0)
}

/// Grouping any rows the decoder accepts yields exactly one group per
/// distinct identity key, in first-seen order, each holding the observations
/// of the rows bearing that key in row order: rows sharing a key land in one
/// series and rows differing in any identity column land in separate series,
/// also when the two cases mix.
pub proof fn lemma_grouping_characterization(
    rows: Seq<Seq<Seq<char>>>,
    ncols: int,
    si: int,
    sui: int,
    vi: int,
)
    requires
        forall|i: int| 0 <= i < rows.len() ==> groupable_row(#[trigger] rows[i], si, sui),
    ensures
        group_rows(rows, ncols, si, sui, vi) matches Ok(gs) && grouping_ok(
            rows,
            gs,
            ncols,
            sui,
            vi,
        ),
    decreases rows.len(),
{
    if rows.len() == 0 {
        let gs = Seq::<GroupView>::empty();
        assert(group_rows(rows, ncols, si, sui, vi) == Ok::<Seq<GroupView>, ()>(gs));
        assert(grouping_ok(rows, gs, ncols, sui, vi));
    } else {
        let front = rows.drop_last();
        let r = rows[rows.len() - 1];
        let k = group_key(r, ncols, sui, vi);
        let p = row_point(r, sui, vi);
        assert(forall|i: int|
            0 <= i < front.len() ==> groupable_row(#[trigger] front[i], si, sui)) by {
            assert(forall|i: int| 0 <= i < front.len() ==> front[i] == #[trigger] rows[i]);
        }
        lemma_grouping_characterization(front, ncols, si, sui, vi);
        let gs0 = group_rows(front, ncols, si, sui, vi)->Ok_0;
        assert(front.push(r) =~= rows);
        assert(groupable_row(r, si, sui));
        assert(add_row(gs0, r, ncols, si, sui, vi) is Ok);
        let gs = group_rows(rows, ncols, si, sui, vi)->Ok_0;
        lemma_find_group_some(gs0, k);
        assert forall|k2: Seq<Seq<char>>| true implies first_index_of_key(
            rows,
            k2,
            ncols,
            sui,
            vi,
        ) == (match first_index_of_key(front, k2, ncols, sui, vi) {
            Some(i) => Some(i),
            None => if group_key(r, ncols, sui, vi) == k2 {
                Some(front.len() as int)
            } else {
                None::<int>
            },
        }) by {
            lemma_first_index_push(front, r, k2, ncols, sui, vi);
        }
        assert forall|k2: Seq<Seq<char>>|
            #![trigger first_index_of_key(front, k2, ncols, sui, vi)]
            true implies (first_index_of_key(front, k2, ncols, sui, vi) matches Some(i) ==> 0
            <= i < front.len() && group_key(front[i], ncols, sui, vi) == k2) by {
            lemma_first_index_bounds(front, k2, ncols, sui, vi);
        }
        match find_group(gs0, k) {
            Some(g) => {
                let updated = GroupView {
                    key: gs0[g].key,
                    first_row: gs0[g].first_row,
                    points: gs0[g].points.push(p),
                };
                assert(gs == gs0.update(g, updated));
                assert(forall|j: int|
                    0 <= j < gs.len() ==> (#[trigger] gs[j]).key == gs0[j].key);
                assert forall|k2: Seq<Seq<char>>| true implies find_group(gs, k2)
                    == find_group(gs0, k2) by {
                    lemma_find_group_same_keys(gs, gs0, k2);
                }
                assert forall|g2: int| 0 <= g2 < gs.len() implies {
                    let fi = first_index_of_key(rows, (#[trigger] gs[g2]).key, ncols, sui, vi);
                    fi is Some && gs[g2].first_row == rows[fi->Some_0] && gs[g2].points
                        == points_of_key(rows, gs[g2].key, ncols, sui, vi)
                } by {
                    let key2 = gs[g2].key;
                    let fi0 = first_index_of_key(front, key2, ncols, sui, vi);
                    assert(fi0 is Some);
                    assert(rows[fi0->Some_0] == front[fi0->Some_0]);
                    assert(points_of_key(rows, key2, ncols, sui, vi) == (if key2 == k {
                        points_of_key(front, key2, ncols, sui, vi).push(p)
                    } else {
                        points_of_key(front, key2, ncols, sui, vi)
                    }));
                    if g2 == g {
                        assert(key2 == k);
                    } else {
                        assert(gs[g2] == gs0[g2]);
                        assert(key2 != k) by {
                            if key2 == k {
                                assert(gs0[g2].key == gs0[g].key);
                            }
                        }
                    }
                }
                assert(grouping_ok(rows, gs, ncols, sui, vi));
            },
            None => {
                let fresh = GroupView { key: k, first_row: r, points: seq![p] };
                assert(gs == gs0.push(fresh));
                assert(forall|j: int| 0 <= j < gs0.len() ==> (#[trigger] gs0[j]).key != k);
                assert forall|k2: Seq<Seq<char>>| true implies find_group(gs, k2) == (
                match find_group(gs0, k2) {
                    Some(i) => Some(i),
                    None => if k == k2 {
                        Some(gs0.len() as int)
                    } else {
                        None::<int>
                    },
                }) by {
                    lemma_find_group_push(gs0, fresh, k2);
                }
                // The new key marks no earlier row.
                assert forall|i: int| 0 <= i < front.len() implies group_key(
                    #[trigger] front[i],
                    ncols,
                    sui,
                    vi,
                ) != k by {
                    if group_key(front[i], ncols, sui, vi) == k {
                        assert(front[i] == rows[i]);
                        assert(find_group(gs0, group_key(rows[i], ncols, sui, vi)) is Some);
                    }
                }
                assert(first_index_of_key(front, k, ncols, sui, vi) is None) by {
                    lemma_first_index_bounds(front, k, ncols, sui, vi);
                }
                assert(first_index_of_key(rows, k, ncols, sui, vi) == Some(
                    front.len() as int,
                ));
                lemma_points_of_key_absent(front, k, ncols, sui, vi);
                assert(points_of_key(rows, k, ncols, sui, vi) =~= seq![p]);
                assert forall|g2: int| 0 <= g2 < gs.len() implies {
                    let fi = first_index_of_key(rows, (#[trigger] gs[g2]).key, ncols, sui, vi);
                    fi is Some && gs[g2].first_row == rows[fi->Some_0] && gs[g2].points
                        == points_of_key(rows, gs[g2].key, ncols, sui, vi)
                } by {
                    let key2 = gs[g2].key;
                    if g2 < gs0.len() {
                        assert(gs[g2] == gs0[g2]);
                        assert(key2 != k);
                        let fi0 = first_index_of_key(front, key2, ncols, sui, vi);
                        assert(fi0 is Some);
                        assert(rows[fi0->Some_0] == front[fi0->Some_0]);
                        assert(points_of_key(rows, key2, ncols, sui, vi) == points_of_key(
                            front,
                            key2,
                            ncols,
                            sui,
                            vi,
                        ));
                    } else {
                        assert(gs[g2] == fresh);
                        assert(rows[front.len() as int] == r);
                    }
                }
                assert forall|g1: int, g2: int| 0 <= g1 < g2 < gs.len() implies
                    first_index_of_key(rows, (#[trigger] gs[g1]).key, ncols, sui, vi)->Some_0
                    < first_index_of_key(rows, (#[trigger] gs[g2]).key, ncols, sui, vi)->Some_0
                    by {
                    if g2 < gs0.len() {
                        assert(gs[g1] == gs0[g1] && gs[g2] == gs0[g2]);
                    } else {
                        assert(gs[g1] == gs0[g1]);
                        let key1 = gs0[g1].key;
                        let fi1 = first_index_of_key(front, key1, ncols, sui, vi);
                        assert(fi1 is Some && fi1->Some_0 < front.len());
                        assert(first_index_of_key(rows, gs[g2].key, ncols, sui, vi) == Some(
                            front.len() as int,
                        ));
                    }
                }
                assert(grouping_ok(rows, gs, ncols, sui, vi));
            },
        }
    }
}

// ---------------------------------------------------------------------------
// Cross-format agreement
// ---------------------------------------------------------------------------
/// One logical series as both wire formats carry it.
pub ghost struct SeriesData {
    /// The series code.
    pub code: Seq<char>,
    /// The survey dates, in order.
    pub dates: Seq<Seq<char>>,
    /// The observed values, aligned with the dates; absent values are
    /// missing observations.
    pub vals: Seq<Option<Seq<char>>>,
}

/// Series data in the exact form both formats carry it, with pairwise
/// distinct codes.
pub open spec fn tidy_series_list(ss: Seq<SeriesData>) -> bool {
    &&& (forall|k: int|
        0 <= k < ss.len() ==> tidy_series_data(
            (#[trigger] ss[k]).code,
            ss[k].dates,
            ss[k].vals,
        ))
    &&& (forall|k1: int, k2: int|
        0 <= k1 < k2 < ss.len() ==> (#[trigger] ss[k1]).code != (#[trigger] ss[k2]).code)
}

/// The tabular rows of one series: one three-cell row per observation.
pub open spec fn series_block(d: SeriesData) -> Seq<Seq<Seq<char>>> {
    Seq::new(d.dates.len(), |i: int| seq![d.code, d.dates[i], value_cell(d.vals[i])])
}

/// The tabular data rows of a series list: the series' blocks, in order.
pub open spec fn all_series_rows(ss: Seq<SeriesData>) -> Seq<Seq<Seq<char>>>
    decreases ss.len(),
{
    if ss.len() == 0 {
        Seq::empty()
    } else {
        all_series_rows(ss.drop_last()) + series_block(ss[ss.len() - 1])
    }
}

/// The observations of one series, as both decoders report them.
pub open spec fn series_points(d: SeriesData) -> Seq<DataPointView> {
    Seq::new(d.dates.len(), |i: int| DataPointView { survey_date: d.dates[i], value: d.vals[i] })
}

proof fn lemma_key_of_triple(c: Seq<char>, x: Seq<char>, y: Seq<char>)
    ensures
        group_key(seq![c, x, y], 3, 1, 2) == seq![c],
{
    let row = seq![c, x, y];
    assert(cell_or_empty(row, 0) == c);
    assert(group_key(row, 0, 1, 2) =~= Seq::<Seq<char>>::empty());
    assert(group_key(row, 1, 1, 2) =~= seq![c]);
    assert(group_key(row, 2, 1, 2) == group_key(row, 1, 1, 2));
    assert(group_key(row, 3, 1, 2) == group_key(row, 2, 1, 2));
}

/// Grouping rows followed by one block of a fresh key appends one group
/// holding exactly that block's observations.
proof fn lemma_group_rows_append_block(rows0: Seq<Seq<Seq<char>>>, d: SeriesData, upto: int)
    requires
        group_rows(rows0, 3, 0, 1, 2) is Ok,
        forall|j: int|
            0 <= j < group_rows(rows0, 3, 0, 1, 2)->Ok_0.len() ==> (#[trigger] group_rows(
                rows0,
                3,
                0,
                1,
                2,
            )->Ok_0[j]).key != seq![d.code],
        tidy_series_data(d.code, d.dates, d.vals),
        1 <= upto <= d.dates.len(),
    ensures
        group_rows(rows0 + series_block(d).take(upto), 3, 0, 1, 2) == Ok::<Seq<GroupView>, ()>(
            group_rows(rows0, 3, 0, 1, 2)->Ok_0.push(
                GroupView {
                    key: seq![d.code],
                    first_row: series_block(d)[0],
                    points: series_points(d).take(upto),
                },
            ),
        ),
    decreases upto,
{
    let gs0 = group_rows(rows0, 3, 0, 1, 2)->Ok_0;
    let block = series_block(d);
    let row = block[upto - 1];
    crate::text::lemma_trim_props(d.dates[upto - 1]);
    if d.vals[upto - 1] is Some {
        crate::text::lemma_trim_props(d.vals[upto - 1]->Some_0);
    }
    assert(row == seq![d.code, d.dates[upto - 1], value_cell(d.vals[upto - 1])]);
    lemma_key_of_triple(d.code, d.dates[upto - 1], value_cell(d.vals[upto - 1]));
    assert(cell_or_empty(row, 0) == d.code);
    assert(cell_or_empty(row, 1) == d.dates[upto - 1]);
    assert(cell_or_empty(row, 2) == value_cell(d.vals[upto - 1]));
    assert(groupable_row(row, 0, 1));
    assert(row_point(row, 1, 2) == (DataPointView {
        survey_date: d.dates[upto - 1],
        value: d.vals[upto - 1],
    })) by {
        match d.vals[upto - 1] {
            Some(t) => {
                assert(spec_normalize(t) == Some(t));
            },
            None => {
                assert(all_ws(Seq::<char>::empty()));
            },
        }
    }
    if upto == 1 {
        assert((rows0 + block.take(1)).drop_last() =~= rows0);
        assert((rows0 + block.take(1))[(rows0 + block.take(1)).len() - 1] == row);
        crate::decode_csv::lemma_find_group_none(gs0, seq![d.code]);
        assert(add_row(gs0, row, 3, 0, 1, 2) == Ok::<Seq<GroupView>, ()>(gs0.push(
            GroupView { key: seq![d.code], first_row: row, points: seq![
                row_point(row, 1, 2),
            ] },
        )));
        assert(series_points(d).take(1) =~= seq![row_point(row, 1, 2)]);
    } else {
        lemma_group_rows_append_block(rows0, d, upto - 1);
        let gs1 = gs0.push(
            GroupView {
                key: seq![d.code],
                first_row: block[0],
                points: series_points(d).take(upto - 1),
            },
        );
        assert((rows0 + block.take(upto)).drop_last() =~= rows0 + block.take(upto - 1));
        assert((rows0 + block.take(upto))[(rows0 + block.take(upto)).len() - 1] == row);
        lemma_find_group_skip_groups(gs1, seq![d.code], gs0.len() as int);
        assert(find_group(gs1, seq![d.code]) == Some(gs0.len() as int)) by {
            assert(gs1.skip(gs0.len() as int) =~= seq![gs1[gs0.len() as int]]);
            assert(gs1[gs0.len() as int].key == seq![d.code]);
        }
        let updated = gs1.update(
            gs0.len() as int,
            GroupView {
                key: seq![d.code],
                first_row: block[0],
                points: series_points(d).take(upto - 1).push(row_point(row, 1, 2)),
            },
        );
        assert(add_row(gs1, row, 3, 0, 1, 2) == Ok::<Seq<GroupView>, ()>(updated));
        assert(series_points(d).take(upto) =~= series_points(d).take(upto - 1).push(
            row_point(row, 1, 2),
        ));
        assert(updated =~= gs0.push(
            GroupView {
                key: seq![d.code],
                first_row: block[0],
                points: series_points(d).take(upto),
            },
        ));
    }
}

/// The group search walks past groups whose keys all differ.
proof fn lemma_find_group_skip_groups(gs: Seq<GroupView>, key: Seq<Seq<char>>, i: int)
    requires
        0 <= i <= gs.len(),
        forall|j: int| 0 <= j < i ==> (#[trigger] gs[j]).key != key,
    ensures
        find_group(gs, key) == (match find_group(gs.skip(i), key) {
            Some(j) => Some(i + j),
            None => None::<int>,
        }),
    decreases i,
{
    if i == 0 {
        assert(gs.skip(0) =~= gs);
    } else {
        assert(gs[0].key != key);
        assert(forall|j: int|
            0 <= j < i - 1 ==> (#[trigger] gs.drop_first()[j]).key != key) by {
            assert(forall|j: int|
                0 <= j < i - 1 ==> gs.drop_first()[j] == #[trigger] gs[j + 1]);
        }
        lemma_find_group_skip_groups(gs.drop_first(), key, i - 1);
        assert(gs.drop_first().skip(i - 1) =~= gs.skip(i));
    }
}

/// Grouping the block-structured rows of a tidy series list yields one group
/// per series, in series order, each holding that series' observations.
pub proof fn lemma_grouping_blocks(ss: Seq<SeriesData>)
    requires
        tidy_series_list(ss),
    ensures
        group_rows(all_series_rows(ss), 3, 0, 1, 2) matches Ok(gs) && gs.len() == ss.len() && (
        forall|k: int|
            0 <= k < ss.len() ==> (#[trigger] gs[k]) == (GroupView {
                key: seq![ss[k].code],
                first_row: series_block(ss[k])[0],
                points: series_points(ss[k]),
            })),
    decreases ss.len(),
{
    if ss.len() > 0 {
        let front = ss.drop_last();
        let d = ss[ss.len() - 1];
        assert(tidy_series_list(front)) by {
            assert(forall|k: int| 0 <= k < front.len() ==> front[k] == #[trigger] ss[k]);
        }
        lemma_grouping_blocks(front);
        let gs0 = group_rows(all_series_rows(front), 3, 0, 1, 2)->Ok_0;
        assert(forall|j: int|
            0 <= j < gs0.len() ==> (#[trigger] gs0[j]).key != seq![d.code]) by {
            assert(forall|k: int| 0 <= k < front.len() ==> front[k] == #[trigger] ss[k]);
            assert forall|j: int| 0 <= j < gs0.len() implies (#[trigger] gs0[j]).key != seq![
                d.code,
            ] by {
                assert(gs0[j].key == seq![ss[j].code]);
                assert(ss[j].code != d.code);
                assert(seq![ss[j].code][0] == ss[j].code && seq![d.code][0] == d.code);
            }
        }
        assert(tidy_series_data(d.code, d.dates, d.vals));
        assert(d.dates.len() >= 1);
        lemma_group_rows_append_block(all_series_rows(front), d, d.dates.len() as int);
        assert(series_block(d).take(d.dates.len() as int) =~= series_block(d));
        assert(series_points(d).take(d.dates.len() as int) =~= series_points(d));
        let gs = group_rows(all_series_rows(ss), 3, 0, 1, 2)->Ok_0;
        assert(gs == gs0.push(
            GroupView {
                key: seq![d.code],
                first_row: series_block(d)[0],
                points: series_points(d),
            },
        ));
        assert(forall|k: int| 0 <= k < front.len() ==> front[k] == #[trigger] ss[k]);
        assert(forall|k: int| 0 <= k < gs0.len() ==> gs[k] == #[trigger] gs0[k]);
    }
}

/// The canonical three-column data header and where its columns sit.
proof fn lemma_canonical_header()
    ensures
        crate::decode_csv::header_index(
            seq!["SERIES_CODE"@, "SURVEY_DATES"@, "VALUES"@],
            "SERIES_CODE"@,
        ) == Some(0int),
        crate::decode_csv::header_index(
            seq!["SERIES_CODE"@, "SURVEY_DATES"@, "VALUES"@],
            "SURVEY_DATES"@,
        ) == Some(1int),
        crate::decode_csv::header_index(
            seq!["SERIES_CODE"@, "SURVEY_DATES"@, "VALUES"@],
            "VALUES"@,
        ) == Some(2int),
{
    reveal_strlit("SERIES_CODE");
    reveal_strlit("SURVEY_DATES");
    reveal_strlit("VALUES");
    let h = seq!["SERIES_CODE"@, "SURVEY_DATES"@, "VALUES"@];
    lemma_caps_literal_fixed("SERIES_CODE"@);
    lemma_caps_literal_fixed("SURVEY_DATES"@);
    lemma_caps_literal_fixed("VALUES"@);
    let h2 = seq!["SERIES_CODE"@, "SURVEY_DATES"@];
    let h1 = seq!["SERIES_CODE"@];
    assert(h.drop_last() =~= h2);
    assert(h2.drop_last() =~= h1);
    assert(("SERIES_CODE"@).len() == 11);
    assert(("SURVEY_DATES"@).len() == 12);
    assert(("VALUES"@).len() == 6);
    assert(h[2] == "VALUES"@);
    assert(h2[1] == "SURVEY_DATES"@);
    assert(h1[0] == "SERIES_CODE"@);
    assert(crate::decode_csv::header_index(h1, "SERIES_CODE"@) == Some(0int));
    assert(crate::decode_csv::header_index(h2, "SERIES_CODE"@) == Some(0int));
    assert(crate::decode_csv::header_index(h, "SERIES_CODE"@) == Some(0int));
    assert(crate::decode_csv::header_index(h2, "SURVEY_DATES"@) == Some(1int));
    assert(crate::decode_csv::header_index(h, "SURVEY_DATES"@) == Some(1int));
    assert(crate::decode_csv::header_index(h, "VALUES"@) == Some(2int));
}

/// The structured decoder turns rows rendering a series list into exactly
/// those series, in order.
proof fn lemma_series_rows_eval(rows: Seq<JsonValue>, ss: Seq<SeriesData>)
    requires
        rows.len() == ss.len(),
        forall|k: int|
            0 <= k < ss.len() ==> row_renders_series(
                #[trigger] rows[k],
                ss[k].code,
                ss[k].dates,
                ss[k].vals,
            ),
        forall|k: int|
            0 <= k < ss.len() ==> tidy_series_data(
                (#[trigger] ss[k]).code,
                ss[k].dates,
                ss[k].vals,
            ),
    ensures
        crate::decode_json::spec_series_rows(rows) matches Ok(s1) && s1.len() == ss.len() && (
        forall|k: int|
            0 <= k < ss.len() ==> (#[trigger] s1[k]).series_code == ss[k].code && s1[k].points
                == series_points(ss[k])),
    decreases rows.len(),
{
    if rows.len() > 0 {
        let front = rows.drop_last();
        let fs = ss.drop_last();
        assert(forall|k: int|
            0 <= k < fs.len() ==> front[k] == #[trigger] rows[k] && fs[k] == ss[k]);
        lemma_series_rows_eval(front, fs);
        let s0 = crate::decode_json::spec_series_rows(front)->Ok_0;
        let d = ss[ss.len() - 1];
        lemma_row_series_eval(rows[rows.len() - 1], d.code, d.dates, d.vals);
        let sv = crate::decode_json::spec_series_row(rows[rows.len() - 1])->Ok_0;
        assert(sv.points =~= series_points(d));
        let s1 = crate::decode_json::spec_series_rows(rows)->Ok_0;
        assert(s1 == s0.push(sv));
        assert(forall|k: int| 0 <= k < s0.len() ==> s1[k] == #[trigger] s0[k]);
    }
}

/// The tabular decoder turns the groups of a tidy series list into exactly
/// those series, in order.
proof fn lemma_csv_series_groups_eval(gs: Seq<GroupView>, ss: Seq<SeriesData>)
    requires
        gs.len() == ss.len(),
        forall|k: int|
            0 <= k < ss.len() ==> (#[trigger] gs[k]) == (GroupView {
                key: seq![ss[k].code],
                first_row: series_block(ss[k])[0],
                points: series_points(ss[k]),
            }),
        forall|k: int|
            0 <= k < ss.len() ==> tidy_series_data(
                (#[trigger] ss[k]).code,
                ss[k].dates,
                ss[k].vals,
            ),
    ensures
        crate::decode_csv::spec_csv_series_groups(
            seq!["SERIES_CODE"@, "SURVEY_DATES"@, "VALUES"@],
            gs,
        ) matches Ok(s2) && s2.len() == ss.len() && (forall|k: int|
            0 <= k < ss.len() ==> (#[trigger] s2[k]).series_code == ss[k].code && s2[k].points
                == series_points(ss[k])),
    decreases gs.len(),
{
    let h = seq!["SERIES_CODE"@, "SURVEY_DATES"@, "VALUES"@];
    if gs.len() > 0 {
        let front = gs.drop_last();
        let fs = ss.drop_last();
        assert(forall|k: int|
            0 <= k < fs.len() ==> front[k] == #[trigger] gs[k] && fs[k] == ss[k]);
        lemma_csv_series_groups_eval(front, fs);
        let s0 = crate::decode_csv::spec_csv_series_groups(h, front)->Ok_0;
        let d = ss[ss.len() - 1];
        let g = gs[gs.len() - 1];
        lemma_canonical_header();
        crate::text::lemma_trim_props(d.code);
        assert(d.dates.len() >= 1);
        assert(g.first_row == series_block(d)[0]);
        assert(g.first_row == seq![d.code, d.dates[0], value_cell(d.vals[0])]);
        assert(cell_or_empty(g.first_row, 0) == d.code);
        assert(crate::decode_csv::spec_csv_optional_cell(h, g.first_row, "SERIES_CODE"@)
            == Some(d.code));
        let sv = crate::decode_csv::spec_csv_series_row(h, g.first_row, g.points)->Ok_0;
        assert(sv.series_code == d.code && sv.points == series_points(d));
        let s2 = crate::decode_csv::spec_csv_series_groups(h, gs)->Ok_0;
        assert(s2 == s0.push(sv));
        assert(forall|k: int| 0 <= k < s0.len() ==> s2[k] == #[trigger] s0[k]);
    }
}

/// Whether a structured document renders a series list with the given meta
/// fields: a four-entry object carrying `STATUS`, `MESSAGEID`, `MESSAGE` and
/// a `RESULTSET` with one row per series.
pub open spec fn doc_renders_series_list(
    doc: JsonValue,
    st: Seq<char>,
    mid: Seq<char>,
    msg: Seq<char>,
    ss: Seq<SeriesData>,
) -> bool {
    match doc {
        JsonValue::Object(es) => {
            let e = es@;
            &&& e.len() == 4
            &&& e[0].0@ == "STATUS"@
            &&& (e[0].1 matches JsonValue::Number(t) && t@ == st)
            &&& e[1].0@ == "MESSAGEID"@
            &&& (e[1].1 matches JsonValue::Text(t) && t@ == mid)
            &&& e[2].0@ == "MESSAGE"@
            &&& (e[2].1 matches JsonValue::Text(t) && t@ == msg)
            &&& e[3].0@ == "RESULTSET"@
            &&& (match e[3].1 {
                JsonValue::Array(rows) => rows@.len() == ss.len() && (forall|k: int|
                    0 <= k < ss.len() ==> row_renders_series(
                        #[trigger] rows@[k],
                        ss[k].code,
                        ss[k].dates,
                        ss[k].vals,
                    )),
                _ => false,
            })
        },
        _ => false,
    }
}

/// Whether a sectioned tabular payload renders the same series list: the
/// three meta rows, the three-column data header, and the series' row
/// blocks, in order.
pub open spec fn payload_renders_series_list(
    p: crate::csv_data::CsvPayloadView,
    st: Seq<char>,
    mid: Seq<char>,
    msg: Seq<char>,
    ss: Seq<SeriesData>,
) -> bool {
    &&& p.meta == seq![("STATUS"@, st), ("MESSAGEID"@, mid), ("MESSAGE"@, msg)]
    &&& p.parameter == Seq::<(Seq<char>, Seq<char>)>::empty()
    &&& p.next_position is None
    &&& p.data_header == seq!["SERIES_CODE"@, "SURVEY_DATES"@, "VALUES"@]
    &&& p.data_rows == all_series_rows(ss)
}

/// Dual-format agreement: a structured document and a sectioned tabular
/// payload that carry the same meta fields and the same series list decode
/// to envelopes equal in status, message identifier, series count, and every
/// series' code and points, in order.
pub proof fn lemma_cross_format_agreement(
    text: Seq<char>,
    doc: JsonValue,
    p: crate::csv_data::CsvPayloadView,
    st: Seq<char>,
    mid: Seq<char>,
    msg: Seq<char>,
    ss: Seq<SeriesData>,
)
    requires
        doc_renders_series_list(doc, st, mid, msg, ss),
        payload_renders_series_list(p, st, mid, msg, ss),
        tidy_series_list(ss),
        crate::text::spec_parse_u16(st) is Some,
    ensures
        crate::decode_json::spec_decode_code_doc(text, doc) is Ok,
        crate::decode_csv::spec_meta_from_csv(p.meta) is Ok,
        crate::decode_csv::spec_series_from_payload(p) is Ok,
        ({
            let r1 = crate::decode_json::spec_decode_code_doc(text, doc)->Ok_0;
            let m2 = crate::decode_csv::spec_meta_from_csv(p.meta)->Ok_0;
            let s2 = crate::decode_csv::spec_series_from_payload(p)->Ok_0;
            &&& r1.meta.status == m2.status
            &&& r1.meta.message_id == m2.message_id
            &&& r1.meta.message_id == mid
            &&& r1.series.len() == s2.len()
            &&& r1.series.len() == ss.len()
            &&& (forall|k: int|
                0 <= k < ss.len() ==> (#[trigger] r1.series[k]).series_code
                    == s2[k].series_code && r1.series[k].series_code == ss[k].code
                    && r1.series[k].points == s2[k].points && r1.series[k].points
                    == series_points(ss[k]))
        }),
{
    reveal_strlit("STATUS");
    reveal_strlit("MESSAGEID");
    reveal_strlit("MESSAGE");
    reveal_strlit("DATE");
    reveal_strlit("NEXTPOSITION");
    reveal_strlit("PARAMETER");
    reveal_strlit("RESULTSET");
    assert(("STATUS"@).len() == 6);
    assert(("MESSAGEID"@).len() == 9);
    assert(("MESSAGE"@).len() == 7);
    assert(("DATE"@).len() == 4);
    assert(("NEXTPOSITION"@).len() == 12);
    assert(("PARAMETER"@).len() == 9);
    assert(("RESULTSET"@).len() == 9);
    let e = match doc {
        JsonValue::Object(es) => es@,
        _ => Seq::empty(),
    };
    assert(e.len() == 4);
    let e1 = e.drop_first();
    let e2 = e1.drop_first();
    let e3 = e2.drop_first();
    assert(e1[0] == e[1] && e1[1] == e[2] && e1[2] == e[3]);
    assert(e2[0] == e[2] && e2[1] == e[3]);
    assert(e3 =~= seq![e[3]]);
    assert(e3[0] == e[3]);
    assert(e3.drop_first() =~= Seq::<(String, JsonValue)>::empty());
    // The literal keys are pairwise distinguishable where it matters.
    assert(!ci_equal("MESSAGEID"@, "PARAMETER"@)) by {
        assert(crate::text::lower_char(("MESSAGEID"@)[0]) != crate::text::lower_char(
            ("PARAMETER"@)[0],
        ));
    }
    assert(!ci_equal("RESULTSET"@, "PARAMETER"@)) by {
        assert(crate::text::lower_char(("RESULTSET"@)[0]) != crate::text::lower_char(
            ("PARAMETER"@)[0],
        ));
    }
    assert(!ci_equal("MESSAGEID"@, "RESULTSET"@)) by {
        assert(crate::text::lower_char(("MESSAGEID"@)[0]) != crate::text::lower_char(
            ("RESULTSET"@)[0],
        ));
    }
    lemma_ci_equal_refl("STATUS"@);
    lemma_ci_equal_refl("MESSAGEID"@);
    lemma_ci_equal_refl("MESSAGE"@);
    lemma_ci_equal_refl("RESULTSET"@);
    // The document's meta fields.
    assert(crate::json::spec_get_ci(e, "STATUS"@) == Some(e[0].1));
    assert(crate::json::spec_get_ci(e1, "MESSAGEID"@) == Some(e[1].1));
    assert(crate::json::spec_get_ci(e, "MESSAGEID"@) == Some(e[1].1));
    assert(crate::json::spec_get_ci(e2, "MESSAGE"@) == Some(e[2].1));
    assert(crate::json::spec_get_ci(e1, "MESSAGE"@) == Some(e[2].1));
    assert(crate::json::spec_get_ci(e, "MESSAGE"@) == Some(e[2].1));
    assert(crate::json::spec_get_ci(e, "DATE"@) is None) by {
        assert(crate::json::spec_get_ci(e3.drop_first(), "DATE"@) is None);
        assert(crate::json::spec_get_ci(e3, "DATE"@) is None);
        assert(crate::json::spec_get_ci(e2, "DATE"@) is None);
        assert(crate::json::spec_get_ci(e1, "DATE"@) is None);
    }
    assert(crate::decode_json::spec_parse_meta(e) matches Ok(m1) && m1.status
        == crate::text::spec_parse_u16(st)->Some_0 && m1.message_id == mid);
    // No echoed parameters and no pagination cursor in the document.
    assert(crate::json::spec_get_ci(e, "PARAMETER"@) is None) by {
        assert(crate::json::spec_get_ci(e3.drop_first(), "PARAMETER"@) is None);
        assert(crate::json::spec_get_ci(e3, "PARAMETER"@) is None);
        assert(crate::json::spec_get_ci(e2, "PARAMETER"@) is None);
        assert(crate::json::spec_get_ci(e1, "PARAMETER"@) is None);
    }
    assert(crate::decode_json::spec_value_string_map(None) == Ok::<
        Seq<(Seq<char>, Seq<char>)>,
        (),
    >(Seq::empty()));
    assert(crate::decode_common::spec_code_echo(Seq::empty()) is Ok);
    assert(crate::json::spec_get_ci(e, "NEXTPOSITION"@) is None) by {
        assert(crate::json::spec_get_ci(e3.drop_first(), "NEXTPOSITION"@) is None);
        assert(crate::json::spec_get_ci(e3, "NEXTPOSITION"@) is None);
        assert(crate::json::spec_get_ci(e2, "NEXTPOSITION"@) is None);
        assert(crate::json::spec_get_ci(e1, "NEXTPOSITION"@) is None);
    }
    assert(crate::decode_json::spec_next_position_json(e) == Ok::<Option<u32>, ()>(None));
    // The result rows: one per series.
    assert(crate::json::spec_get_ci(e3, "RESULTSET"@) == Some(e[3].1)) by {
        assert(e3[0] == e[3]);
    }
    assert(crate::json::spec_get_ci(e2, "RESULTSET"@) == Some(e[3].1)) by {
        assert(e2[0] == e[2]);
        assert(e2.drop_first() =~= e3);
    }
    assert(crate::json::spec_get_ci(e1, "RESULTSET"@) == Some(e[3].1)) by {
        assert(e1[0] == e[1]);
        assert(e1.drop_first() =~= e2);
    }
    assert(crate::json::spec_get_ci(e, "RESULTSET"@) == Some(e[3].1));
    let rows = match e[3].1 {
        JsonValue::Array(rows) => rows@,
        _ => Seq::empty(),
    };
    assert(rows.len() == ss.len());
    lemma_series_rows_eval(rows, ss);
    assert(crate::decode_json::spec_series_list(e) == crate::decode_json::spec_series_rows(
        rows,
    ));
    assert(crate::decode_json::spec_decode_code_doc(text, doc) is Ok);
    // The tabular payload's meta rows.
    assert(p.meta[0] == ("STATUS"@, st) && p.meta[1] == ("MESSAGEID"@, mid) && p.meta[2]
        == ("MESSAGE"@, msg));
    let pm1 = p.meta.drop_first();
    let pm2 = pm1.drop_first();
    assert(pm1[0] == p.meta[1] && pm1[1] == p.meta[2]);
    assert(pm2 =~= seq![p.meta[2]]);
    assert(pm2.drop_first() =~= Seq::<(Seq<char>, Seq<char>)>::empty());
    assert(crate::decode_common::assoc_lookup(p.meta, "STATUS"@) == Some(st));
    assert(crate::decode_common::assoc_lookup(pm1, "MESSAGEID"@) == Some(mid)) by {
        assert(pm1[0].0 == "MESSAGEID"@);
    }
    assert(crate::decode_common::assoc_lookup(p.meta, "MESSAGEID"@) == Some(mid));
    assert(crate::decode_csv::spec_meta_from_csv(p.meta) matches Ok(m2) && m2.status
        == crate::text::spec_parse_u16(st)->Some_0 && m2.message_id == mid);
    // The tabular payload's series: its blocks group into one group per
    // series, and each group decodes to that series.
    lemma_canonical_header();
    lemma_grouping_blocks(ss);
    let gs = group_rows(all_series_rows(ss), 3, 0, 1, 2)->Ok_0;
    lemma_csv_series_groups_eval(gs, ss);
    assert(p.data_header.len() == 3);
}

} // verus!
