//! Canonicalization helpers shared by the structured and tabular decoders:
//! string maps with unique keys, echoed-parameter parsing, and the
//! blank-means-absent rules.

use vstd::prelude::*;

use crate::error::BojError;
use crate::json::{spec_normalize, spec_opt_u32_from_text, normalize_optional,
    parse_optional_u32_from_text};
use crate::model::{CodeParameterEcho, CodeParameterEchoView, LayerParameterEcho,
    LayerParameterEchoView};

verus! {

/// First value under the key, compared exactly.
pub open spec fn assoc_lookup(m: Seq<(Seq<char>, Seq<char>)>, key: Seq<char>) -> Option<
    Seq<char>,
>
    decreases m.len(),
{
    if m.len() == 0 {
        None
    } else if m[0].0 == key {
        Some(m[0].1)
    } else {
        assoc_lookup(m.drop_first(), key)
    }
}

/// Whether some entry carries the key.
pub open spec fn assoc_has_key(m: Seq<(Seq<char>, Seq<char>)>, key: Seq<char>) -> bool {
    exists|i: int| 0 <= i < m.len() && (#[trigger] m[i]).0 == key
}

/// Sets the key to the value: replaces the first entry with the key, keeping
/// its position, or appends a new entry.
pub open spec fn assoc_insert(
    m: Seq<(Seq<char>, Seq<char>)>,
    key: Seq<char>,
    value: Seq<char>,
) -> Seq<(Seq<char>, Seq<char>)>
    decreases m.len(),
{
    if m.len() == 0 {
        seq![(key, value)]
    } else if m[0].0 == key {
        seq![(key, value)] + m.drop_first()
    } else {
        seq![m[0]] + assoc_insert(m.drop_first(), key, value)
    }
}

/// First value under the key, compared exactly.
pub fn assoc_lookup_string(m: &Vec<(String, String)>, key: &str) -> (r: Option<String>)
    ensures
        crate::model::opt_view(r) == assoc_lookup(m.deep_view(), key@),
{
    let ghost ms = m.deep_view();
    let n = m.len();
    assert(ms.skip(0) =~= ms);
    for i in 0..n
        invariant
            n == m.len(),
            ms == m.deep_view(),
            assoc_lookup(ms, key@) == assoc_lookup(ms.skip(i as int), key@),
    {
        assert(ms.skip(i as int)[0] == ms[i as int]);
        if crate::text::str_eq(m[i].0.as_str(), key) {
            assert(m@[i as int].0@ == key@);
            return Some(m[i].1.clone());
        }
        assert(m@[i as int].0@ != key@);
        assert(ms.skip(i as int).drop_first() =~= ms.skip(i + 1));
    }
    None
}

/// Sets the key to the value, replacing an existing entry in place.
pub fn assoc_insert_string(m: &mut Vec<(String, String)>, key: String, value: String)
    ensures
        final(m).deep_view() == assoc_insert(old(m).deep_view(), key@, value@),
{
    let ghost ms = old(m).deep_view();
    let ghost k = key@;
    let ghost v = value@;
    let n = m.len();
    for i in 0..n
        invariant
            n == m.len(),
            ms == m.deep_view(),
            ms == old(m).deep_view(),
            k == key@,
            v == value@,
            forall|j: int| 0 <= j < i ==> (#[trigger] ms[j]).0 != key@,
    {
        if crate::text::str_eq(m[i].0.as_str(), key.as_str()) {
            assert(ms[i as int].0 == k);
            let _ = m.remove(i);
            m.insert(i, (key, value));
            proof {
                lemma_assoc_insert_at(ms, k, v, i as int);
                assert(m.deep_view() =~= ms.update(i as int, (k, v)));
            }
            return ;
        }
        assert(ms[i as int].0 != key@);
    }
    m.push((key, value));
    proof {
        lemma_assoc_insert_missing(ms, key@, value@);
        assert(m.deep_view() =~= ms.push((key@, value@)));
    }
}

proof fn lemma_assoc_insert_at(
    m: Seq<(Seq<char>, Seq<char>)>,
    key: Seq<char>,
    value: Seq<char>,
    i: int,
)
    requires
        0 <= i < m.len(),
        m[i].0 == key,
        forall|j: int| 0 <= j < i ==> (#[trigger] m[j]).0 != key,
    ensures
        assoc_insert(m, key, value) == m.update(i, (key, value)),
    decreases i,
{
    if i == 0 {
        assert(assoc_insert(m, key, value) == seq![(key, value)] + m.drop_first());
        assert(seq![(key, value)] + m.drop_first() =~= m.update(0, (key, value)));
    } else {
        assert(m.drop_first()[i - 1].0 == key);
        assert(forall|j: int|
            0 <= j < i - 1 ==> (#[trigger] m.drop_first()[j]).0 != key) by {
            assert(forall|j: int|
                0 <= j < i - 1 ==> m.drop_first()[j] == #[trigger] m[j + 1]);
        }
        lemma_assoc_insert_at(m.drop_first(), key, value, i - 1);
        assert(seq![m[0]] + m.drop_first().update(i - 1, (key, value)) =~= m.update(
            i,
            (key, value),
        ));
    }
}

proof fn lemma_assoc_insert_missing(
    m: Seq<(Seq<char>, Seq<char>)>,
    key: Seq<char>,
    value: Seq<char>,
)
    requires
        forall|j: int| 0 <= j < m.len() ==> (#[trigger] m[j]).0 != key,
    ensures
        assoc_insert(m, key, value) == m.push((key, value)),
    decreases m.len(),
{
    if m.len() == 0 {
        assert(assoc_insert(m, key, value) =~= m.push((key, value)));
    } else {
        assert(forall|j: int|
            0 <= j < m.drop_first().len() ==> (#[trigger] m.drop_first()[j]).0 != key) by {
            assert(forall|j: int|
                0 <= j < m.drop_first().len() ==> m.drop_first()[j] == #[trigger] m[j + 1]);
        }
        lemma_assoc_insert_missing(m.drop_first(), key, value);
        assert(seq![m[0]] + m.drop_first().push((key, value)) =~= m.push((key, value)));
    }
}

/// Whether the key equals some member of the list.
pub open spec fn key_member(known: Seq<Seq<char>>, key: Seq<char>) -> bool {
    exists|i: int| 0 <= i < known.len() && #[trigger] known[i] == key
}

/// The unrecognized entries of an echoed-parameter map: entries whose key is
/// not a dedicated field and whose value is not blank, values trimmed, in
/// map order.
pub open spec fn echo_extras(
    m: Seq<(Seq<char>, Seq<char>)>,
    known: Seq<Seq<char>>,
) -> Seq<(Seq<char>, Seq<char>)>
    decreases m.len(),
{
    if m.len() == 0 {
        Seq::empty()
    } else {
        let rest = echo_extras(m.drop_last(), known);
        let last = m[m.len() - 1];
        if key_member(known, last.0) {
            rest
        } else {
            match spec_normalize(last.1) {
                Some(v) => rest.push((last.0, v)),
                None => rest,
            }
        }
    }
}

/// A normalized optional field read from the map.
pub open spec fn echo_field(m: Seq<(Seq<char>, Seq<char>)>, key: Seq<char>) -> Option<
    Seq<char>,
> {
    match assoc_lookup(m, key) {
        None => None,
        Some(v) => spec_normalize(v),
    }
}

/// An optional numeric field read from the map; bad digits are an error.
pub open spec fn echo_u32_field(m: Seq<(Seq<char>, Seq<char>)>, key: Seq<char>) -> Result<
    Option<u32>,
    (),
> {
    spec_opt_u32_from_text(assoc_lookup(m, key))
}

/// Whether the key equals some member of the list.
fn key_in(known: &Vec<&'static str>, key: &str) -> (r: bool)
    ensures
        r == key_member(known.deep_view(), key@),
{
    let n = known.len();
    for i in 0..n
        invariant
            n == known.len(),
            forall|j: int| 0 <= j < i ==> #[trigger] known.deep_view()[j] != key@,
    {
        if crate::text::str_eq(known[i], key) {
            assert(known.deep_view()[i as int] == key@);
            return true;
        }
        assert(known.deep_view()[i as int] != key@);
    }
    false
}

/// Collects the unrecognized, non-blank entries of an echoed-parameter map.
fn collect_echo_extras(m: &Vec<(String, String)>, known: &Vec<&'static str>) -> (r: Vec<
    (String, String),
>)
    ensures
        r.deep_view() == echo_extras(m.deep_view(), known.deep_view()),
{
    let ghost ms = m.deep_view();
    let mut r: Vec<(String, String)> = Vec::new();
    let n = m.len();
    for i in 0..n
        invariant
            n == m.len(),
            ms == m.deep_view(),
            r.deep_view() == echo_extras(ms.take(i as int), known.deep_view()),
    {
        proof {
            assert(ms.take(i + 1).drop_last() =~= ms.take(i as int));
            assert(ms.take(i + 1)[i as int] == ms[i as int]);
        }
        if !key_in(known, m[i].0.as_str()) {
            if let Some(v) = normalize_optional(m[i].1.as_str()) {
                let ghost before = r.deep_view();
                let ghost vv = v@;
                r.push((m[i].0.clone(), v));
                assert(r.deep_view() =~= before.push((ms[i as int].0, vv)));
                assert(r.deep_view() =~= echo_extras(ms.take(i + 1), known.deep_view()));
            }
        }
    }
    assert(ms.take(n as int) =~= ms);
    r
}

/// The dedicated fields of a by-code parameter echo.
pub open spec fn code_echo_known_keys() -> Seq<Seq<char>> {
    seq!["FORMAT"@, "LANG"@, "DB"@, "STARTDATE"@, "ENDDATE"@, "STARTPOSITION"@]
}

/// What a by-code parameter map means: dedicated fields normalized, the
/// start position read as a number, everything else kept in `extras`.
pub open spec fn spec_code_echo(m: Seq<(Seq<char>, Seq<char>)>) -> Result<
    CodeParameterEchoView,
    (),
> {
    match echo_u32_field(m, "STARTPOSITION"@) {
        Err(()) => Err(()),
        Ok(start_position) => Ok(
            CodeParameterEchoView {
                format: echo_field(m, "FORMAT"@),
                lang: echo_field(m, "LANG"@),
                db: echo_field(m, "DB"@),
                start_date: echo_field(m, "STARTDATE"@),
                end_date: echo_field(m, "ENDDATE"@),
                start_position,
                extras: echo_extras(m, code_echo_known_keys()),
            },
        ),
    }
}

/// Reads a by-code parameter echo from a string map with upper-cased keys.
pub fn parse_code_parameter_map(m: &Vec<(String, String)>) -> (r: Result<
    CodeParameterEcho,
    BojError,
>)
    ensures
        match r {
            Ok(echo) => spec_code_echo(m.deep_view()) == Ok::<CodeParameterEchoView, ()>(
                echo@,
            ),
            Err(e) => spec_code_echo(m.deep_view()) is Err && e matches
                BojError::DecodeError(_),
        },
{
    let mut known: Vec<&'static str> = Vec::new();
    known.push("FORMAT");
    known.push("LANG");
    known.push("DB");
    known.push("STARTDATE");
    known.push("ENDDATE");
    known.push("STARTPOSITION");
    assert(known.deep_view() =~= code_echo_known_keys());
    let extras = collect_echo_extras(m, &known);
    let sp_text = assoc_lookup_string(m, "STARTPOSITION");
    let start_position = parse_optional_u32_from_text(
        match &sp_text {
            Some(s) => Some(s.as_str()),
            None => None,
        },
        "STARTPOSITION",
    )?;
    Ok(
        CodeParameterEcho {
            format: lookup_normalized(m, "FORMAT"),
            lang: lookup_normalized(m, "LANG"),
            db: lookup_normalized(m, "DB"),
            start_date: lookup_normalized(m, "STARTDATE"),
            end_date: lookup_normalized(m, "ENDDATE"),
            start_position,
            extras,
        },
    )
}

/// A normalized optional field read from the map.
fn lookup_normalized(m: &Vec<(String, String)>, key: &str) -> (r: Option<String>)
    ensures
        crate::model::opt_view(r) == echo_field(m.deep_view(), key@),
{
    match assoc_lookup_string(m, key) {
        None => None,
        Some(v) => normalize_optional(v.as_str()),
    }
}

/// An optional numeric field read from the map.
fn lookup_u32(m: &Vec<(String, String)>, key: &str) -> (r: Result<Option<u32>, BojError>)
    ensures
        match r {
            Ok(n) => echo_u32_field(m.deep_view(), key@) == Ok::<Option<u32>, ()>(n),
            Err(e) => echo_u32_field(m.deep_view(), key@) is Err && e matches
                BojError::DecodeError(_),
        },
{
    let text = assoc_lookup_string(m, key);
    parse_optional_u32_from_text(
        match &text {
            Some(s) => Some(s.as_str()),
            None => None,
        },
        key,
    )
}

/// The dedicated fields of a by-layer parameter echo.
pub open spec fn layer_echo_known_keys() -> Seq<Seq<char>> {
    seq![
        "FORMAT"@,
        "LANG"@,
        "DB"@,
        "FREQUENCY"@,
        "LAYER1"@,
        "LAYER2"@,
        "LAYER3"@,
        "LAYER4"@,
        "LAYER5"@,
        "STARTDATE"@,
        "ENDDATE"@,
        "STARTPOSITION"@,
    ]
}

/// What a by-layer parameter map means.
pub open spec fn spec_layer_echo(m: Seq<(Seq<char>, Seq<char>)>) -> Result<
    LayerParameterEchoView,
    (),
> {
    match (
        echo_u32_field(m, "LAYER1"@),
        echo_u32_field(m, "LAYER2"@),
        echo_u32_field(m, "LAYER3"@),
        echo_u32_field(m, "LAYER4"@),
        echo_u32_field(m, "LAYER5"@),
        echo_u32_field(m, "STARTPOSITION"@),
    ) {
        (Ok(layer1), Ok(layer2), Ok(layer3), Ok(layer4), Ok(layer5), Ok(start_position)) => Ok(
            LayerParameterEchoView {
                format: echo_field(m, "FORMAT"@),
                lang: echo_field(m, "LANG"@),
                db: echo_field(m, "DB"@),
                frequency: echo_field(m, "FREQUENCY"@),
                layer1,
                layer2,
                layer3,
                layer4,
                layer5,
                start_date: echo_field(m, "STARTDATE"@),
                end_date: echo_field(m, "ENDDATE"@),
                start_position,
                extras: echo_extras(m, layer_echo_known_keys()),
            },
        ),
        _ => Err(()),
    }
}

/// Reads a by-layer parameter echo from a string map with upper-cased keys.
pub fn parse_layer_parameter_map(m: &Vec<(String, String)>) -> (r: Result<
    LayerParameterEcho,
    BojError,
>)
    ensures
        match r {
            Ok(echo) => spec_layer_echo(m.deep_view()) == Ok::<LayerParameterEchoView, ()>(
                echo@,
            ),
            Err(e) => spec_layer_echo(m.deep_view()) is Err && e matches
                BojError::DecodeError(_),
        },
{
    let mut known: Vec<&'static str> = Vec::new();
    known.push("FORMAT");
    known.push("LANG");
    known.push("DB");
    known.push("FREQUENCY");
    known.push("LAYER1");
    known.push("LAYER2");
    known.push("LAYER3");
    known.push("LAYER4");
    known.push("LAYER5");
    known.push("STARTDATE");
    known.push("ENDDATE");
    known.push("STARTPOSITION");
    assert(known.deep_view() =~= layer_echo_known_keys());
    let extras = collect_echo_extras(m, &known);
    let layer1 = lookup_u32(m, "LAYER1")?;
    let layer2 = lookup_u32(m, "LAYER2")?;
    let layer3 = lookup_u32(m, "LAYER3")?;
    let layer4 = lookup_u32(m, "LAYER4")?;
    let layer5 = lookup_u32(m, "LAYER5")?;
    let start_position = lookup_u32(m, "STARTPOSITION")?;
    Ok(
        LayerParameterEcho {
            format: lookup_normalized(m, "FORMAT"),
            lang: lookup_normalized(m, "LANG"),
            db: lookup_normalized(m, "DB"),
            frequency: lookup_normalized(m, "FREQUENCY"),
            layer1,
            layer2,
            layer3,
            layer4,
            layer5,
            start_date: lookup_normalized(m, "STARTDATE"),
            end_date: lookup_normalized(m, "ENDDATE"),
            start_position,
            extras,
        },
    )
}

} // verus!
