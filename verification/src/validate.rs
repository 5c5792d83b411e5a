//! Pure request-parameter validation: character-set, length, date-shape and
//! ordering rules checked before a request is built.

use vstd::prelude::*;
use vstd::utf8::is_ascii_chars;

use crate::error::BojError;
use crate::options::Frequency;
use crate::text::{
    all_digits, all_ws, digits_val, is_blank, lex_le, lex_le_str, parse_u32_str,
    spec_parse_u32,
};

verus! {

/// The characters the API forbids in every parameter value.
pub open spec fn forbidden_char(c: char) -> bool {
    c == '<' || c == '>' || c == '!' || c == '|' || c == '\\' || c == ';' || c == '\''
        || c == '"'
}

/// A value the identifier rules accept: not blank, ASCII only, and free of
/// the forbidden characters.
pub open spec fn valid_identifier(s: Seq<char>) -> bool {
    !all_ws(s) && is_ascii_chars(s) && forall|i: int|
        0 <= i < s.len() ==> !forbidden_char(#[trigger] s[i])
}

/// The message `validate_identifier` reports for an invalid value, checked
/// in this order: blank, then non-ASCII, then a forbidden character.
pub open spec fn identifier_error_message(name: Seq<char>, s: Seq<char>) -> Seq<char> {
    if all_ws(s) {
        name + " is required"@
    } else if !is_ascii_chars(s) {
        name + " must use ASCII characters only"@
    } else {
        name + " contains forbidden character"@
    }
}

/// A database code the rules accept: a valid identifier without a comma.
pub open spec fn valid_db(s: Seq<char>) -> bool {
    valid_identifier(s) && !s.contains(',')
}

/// A series code the rules accept: a valid identifier without a comma.
pub open spec fn valid_code(s: Seq<char>) -> bool {
    valid_identifier(s) && !s.contains(',')
}

/// A code list the rules accept: 1 to 1250 entries, each a valid code.
pub open spec fn valid_code_list(codes: Seq<Seq<char>>) -> bool {
    1 <= codes.len() <= 1250 && forall|i: int|
        0 <= i < codes.len() ==> valid_code(#[trigger] codes[i])
}

/// The year encoded in the first four characters of a date string.
pub open spec fn date_year(s: Seq<char>) -> nat {
    digits_val(s.take(4))
}

/// The two-digit suffix of a six-character date string.
pub open spec fn date_suffix(s: Seq<char>) -> nat {
    digits_val(s.subrange(4, 6))
}

/// The year range the API accepts.
pub open spec fn year_in_range(y: nat) -> bool {
    1850 <= y <= 2050
}

/// A date string of shape `YYYYXX` with the suffix within bounds.
pub open spec fn valid_yyyyxx(s: Seq<char>, min: nat, max: nat) -> bool {
    all_digits(s) && s.len() == 6 && year_in_range(date_year(s)) && min <= date_suffix(s)
        <= max
}

/// A date string the generic rule accepts: `YYYY`, or `YYYYXX` with the
/// suffix in `01..=12`, with the year always in `1850..=2050`.
pub open spec fn valid_date_generic(s: Seq<char>) -> bool {
    all_digits(s) && (s.len() == 4 && year_in_range(date_year(s)) || valid_yyyyxx(s, 1, 12))
}

/// The date shape a frequency accepts: annual frequencies take `YYYY`,
/// half-year `YYYY01..02`, quarterly `YYYY01..04`, monthly and finer
/// `YYYY01..12`.
pub open spec fn valid_date_for_frequency(s: Seq<char>, f: Frequency) -> bool {
    match f {
        Frequency::Cy | Frequency::Fy => all_digits(s) && s.len() == 4 && year_in_range(
            date_year(s),
        ),
        Frequency::Ch | Frequency::Fh => valid_yyyyxx(s, 1, 2),
        Frequency::Q => valid_yyyyxx(s, 1, 4),
        Frequency::M | Frequency::W | Frequency::D => valid_yyyyxx(s, 1, 12),
    }
}

/// A start/end date pair in order: same shape and `start <= end` character
/// by character (both are fixed-width zero-padded digit strings).
pub open spec fn valid_date_order(start: Seq<char>, end: Seq<char>) -> bool {
    start.len() == end.len() && lex_le(start, end)
}

/// A layer selector value: the wildcard, or a positive index.
#[derive(Debug, Clone, Copy, PartialEq, Eq, Structural)]
pub enum LayerValue {
    /// Select all values in the layer (`*`).
    Wildcard,
    /// Select one positive layer index.
    Index(u32),
}

/// What `parse_layer_value` accepts: the wildcard token, or an ASCII
/// integer literal with a positive value.
pub open spec fn layer_token_result(s: Seq<char>) -> Option<LayerValue> {
    if !valid_identifier(s) {
        None
    } else if s == seq!['*'] {
        Some(LayerValue::Wildcard)
    } else {
        match spec_parse_u32(s) {
            Some(n) => if n > 0 {
                Some(LayerValue::Index(n))
            } else {
                None
            },
            None => None,
        }
    }
}

/// Joins a parameter name and a fixed message tail.
fn message_for(name: &str, tail: &str) -> (r: String)
    ensures
        r@ == name@ + tail@,
{
    String::from_str(name).concat(tail)
}

/// Whether the string holds a character the API forbids.
fn has_forbidden_char(s: &str) -> (r: bool)
    ensures
        r == exists|i: int| 0 <= i < s@.len() && forbidden_char(#[trigger] s@[i]),
{
    let n = s.unicode_len();
    for i in 0..n
        invariant
            n == s@.len(),
            forall|j: int| 0 <= j < i ==> !forbidden_char(#[trigger] s@[j]),
    {
        let c = s.get_char(i);
        if c == '<' || c == '>' || c == '!' || c == '|' || c == '\\' || c == ';' || c == '\''
            || c == '"' {
            return true;
        }
    }
    false
}

/// Checks one named parameter value against the identifier rules: it must
/// not be blank, must be ASCII only, and must avoid the forbidden set.
pub fn validate_identifier(name: &str, value: &str) -> (r: Result<(), BojError>)
    ensures
        match r {
            Ok(()) => valid_identifier(value@),
            Err(e) => !valid_identifier(value@) && (e matches BojError::ValidationError(m)
                && m@ == identifier_error_message(name@, value@)),
        },
{
    if is_blank(value) {
        return Err(BojError::ValidationError(message_for(name, " is required")));
    }
    if !value.is_ascii() {
        return Err(
            BojError::ValidationError(message_for(name, " must use ASCII characters only")),
        );
    }
    if has_forbidden_char(value) {
        return Err(
            BojError::ValidationError(message_for(name, " contains forbidden character")),
        );
    }
    Ok(())
}

/// Checks a database code: identifier rules, and no comma (the code is sent
/// as one parameter).
pub fn validate_db(value: &str) -> (r: Result<(), BojError>)
    ensures
        match r {
            Ok(()) => valid_db(value@),
            Err(e) => !valid_db(value@) && e matches BojError::ValidationError(_),
        },
{
    validate_identifier("DB", value)?;
    if contains_comma(value) {
        return Err(BojError::validation("DB must not include comma"));
    }
    Ok(())
}

/// Checks one series code: identifier rules, and no comma (codes are joined
/// with commas on the wire, so an embedded comma would corrupt the request).
pub fn validate_code(value: &str) -> (r: Result<(), BojError>)
    ensures
        match r {
            Ok(()) => valid_code(value@),
            Err(e) => !valid_code(value@) && e matches BojError::ValidationError(_),
        },
{
    validate_identifier("CODE", value)?;
    if contains_comma(value) {
        return Err(
            BojError::validation(
                "CODE must be passed as separate items, not comma-containing strings",
            ),
        );
    }
    Ok(())
}

/// Whether the string holds a comma.
fn contains_comma(s: &str) -> (r: bool)
    ensures
        r == s@.contains(','),
{
    crate::text::contains_char(s, ',')
}

/// Checks a series-code list: it must hold 1 to 1250 entries and each entry
/// must pass [`validate_code`]. The first violation is reported.
pub fn validate_code_list(codes: &Vec<String>) -> (r: Result<(), BojError>)
    ensures
        match r {
            Ok(()) => valid_code_list(codes.deep_view()),
            Err(e) => !valid_code_list(codes.deep_view()) && e matches
                BojError::ValidationError(_),
        },
{
    if codes.len() == 0 {
        return Err(BojError::validation("CODE is required"));
    }
    if codes.len() > 1250 {
        return Err(BojError::validation("CODE must contain 1250 or fewer series codes"));
    }
    let n = codes.len();
    for i in 0..n
        invariant
            n == codes.len(),
            codes.deep_view().len() == n,
            forall|j: int| 0 <= j < n ==> codes.deep_view()[j] == codes@[j]@,
            forall|j: int| 0 <= j < i ==> valid_code(#[trigger] codes.deep_view()[j]),
    {
        match validate_code(codes[i].as_str()) {
            Ok(()) => {},
            Err(e) => {
                assert(!valid_code(codes.deep_view()[i as int]));
                return Err(e);
            },
        }
    }
    Ok(())
}

/// Parses a layer selector token: the wildcard `*`, or a positive integer.
pub fn parse_layer_value(value: &str) -> (r: Result<LayerValue, BojError>)
    ensures
        match r {
            Ok(v) => layer_token_result(value@) == Some(v),
            Err(e) => layer_token_result(value@) is None && e matches
                BojError::ValidationError(_),
        },
{
    validate_identifier("LAYER", value)?;
    if value.unicode_len() == 1 && value.get_char(0) == '*' {
        assert(value@ =~= seq!['*']);
        return Ok(LayerValue::Wildcard);
    }
    assert(value@ != seq!['*']);
    match parse_u32_str(value) {
        Some(n) => {
            if n == 0 {
                Err(BojError::validation("LAYER value must be '*' or a positive integer"))
            } else {
                Ok(LayerValue::Index(n))
            }
        },
        None => Err(BojError::validation("LAYER value must be '*' or a positive integer")),
    }
}

/// Whether every character of the string is an ASCII digit.
fn is_all_digits(s: &str) -> (r: bool)
    ensures
        r == all_digits(s@),
{
    let n = s.unicode_len();
    for i in 0..n
        invariant
            n == s@.len(),
            forall|j: int| 0 <= j < i ==> '0' <= #[trigger] s@[j] && s@[j] <= '9',
    {
        let c = s.get_char(i);
        if !('0' <= c && c <= '9') {
            return false;
        }
    }
    true
}

/// Reads the four-digit year at the front of an all-digit date string.
fn read_year(s: &str) -> (r: u32)
    requires
        all_digits(s@),
        s@.len() >= 4,
    ensures
        r == date_year(s@),
{
    match crate::text::parse_digits_range(s, 0, 4) {
        Some(v) => v,
        None => {
            proof {
                lemma_short_digits_small(s@.subrange(0, 4));
                assert(false);
            }
            0
        },
    }
}

/// Reads the two-digit suffix of a six-character all-digit date string.
fn read_suffix(s: &str) -> (r: u32)
    requires
        all_digits(s@),
        s@.len() == 6,
    ensures
        r == date_suffix(s@),
{
    match crate::text::parse_digits_range(s, 4, 6) {
        Some(v) => v,
        None => {
            proof {
                lemma_short_digits_small(s@.subrange(4, 6));
                assert(false);
            }
            0
        },
    }
}

/// The value of at most six digits stays far below `u32::MAX`.
proof fn lemma_short_digits_small(s: Seq<char>)
    requires
        all_digits(s),
        s.len() <= 6,
    ensures
        digits_val(s) < 1000000,
{
    crate::text::lemma_digits_val_bound(s);
    assert(crate::text::pow10(0) == 1);
    assert(crate::text::pow10(1) == 10);
    assert(crate::text::pow10(2) == 100);
    assert(crate::text::pow10(3) == 1000);
    assert(crate::text::pow10(4) == 10000);
    assert(crate::text::pow10(5) == 100000);
    assert(crate::text::pow10(6) == 1000000);
    assert(digits_val(s) < crate::text::pow10(s.len()));
    if s.len() == 0 {
    } else if s.len() == 1 {
    } else if s.len() == 2 {
    } else if s.len() == 3 {
    } else if s.len() == 4 {
    } else if s.len() == 5 {
    } else {
        assert(s.len() == 6);
    }
}

/// Checks a date string against the generic rule: `YYYY` or `YYYYXX` with
/// `XX` in `01..=12`, year in `1850..=2050`.
pub fn validate_date_generic(value: &str) -> (r: Result<(), BojError>)
    ensures
        match r {
            Ok(()) => valid_date_generic(value@),
            Err(e) => !valid_date_generic(value@) && e matches BojError::ValidationError(_),
        },
{
    if !is_all_digits(value) {
        return Err(BojError::validation("date must be numeric"));
    }
    let n = value.unicode_len();
    if n == 4 {
        let year = read_year(value);
        if !(1850 <= year && year <= 2050) {
            return Err(BojError::validation("year must be between 1850 and 2050"));
        }
        Ok(())
    } else if n == 6 {
        let year = read_year(value);
        if !(1850 <= year && year <= 2050) {
            return Err(BojError::validation("year must be between 1850 and 2050"));
        }
        let suffix = read_suffix(value);
        if !(1 <= suffix && suffix <= 12) {
            return Err(BojError::validation("date suffix must be between 01 and 12"));
        }
        Ok(())
    } else {
        Err(BojError::validation("date format must be YYYY or YYYYXX (XX=01..12)"))
    }
}

/// Checks a six-character date string with a frequency-specific suffix range.
fn validate_yyyyxx(value: &str, min: u32, max: u32, shape_message: &str, suffix_message: &str)
    -> (r: Result<(), BojError>)
    requires
        all_digits(value@),
    ensures
        match r {
            Ok(()) => valid_yyyyxx(value@, min as nat, max as nat),
            Err(e) => !valid_yyyyxx(value@, min as nat, max as nat) && e matches
                BojError::ValidationError(_),
        },
{
    if value.unicode_len() != 6 {
        return Err(BojError::validation(shape_message));
    }
    let year = read_year(value);
    if !(1850 <= year && year <= 2050) {
        return Err(BojError::validation("year must be between 1850 and 2050"));
    }
    let suffix = read_suffix(value);
    if !(min <= suffix && suffix <= max) {
        return Err(BojError::validation(suffix_message));
    }
    Ok(())
}

/// Checks a date string against the shape the given frequency requires.
pub fn validate_date_for_frequency(value: &str, frequency: Frequency) -> (r: Result<
    (),
    BojError,
>)
    ensures
        match r {
            Ok(()) => valid_date_for_frequency(value@, frequency),
            Err(e) => !valid_date_for_frequency(value@, frequency) && e matches
                BojError::ValidationError(_),
        },
{
    if !is_all_digits(value) {
        return Err(BojError::validation("date must be numeric"));
    }
    match frequency {
        Frequency::Cy | Frequency::Fy => {
            if value.unicode_len() != 4 {
                return Err(BojError::validation("date format for CY/FY must be YYYY"));
            }
            let year = read_year(value);
            if !(1850 <= year && year <= 2050) {
                return Err(BojError::validation("year must be between 1850 and 2050"));
            }
            Ok(())
        },
        Frequency::Ch | Frequency::Fh => validate_yyyyxx(
            value,
            1,
            2,
            "date format for CH/FH must be YYYYXX",
            "date suffix for CH/FH must be between 01 and 02",
        ),
        Frequency::Q => validate_yyyyxx(
            value,
            1,
            4,
            "date format for Q must be YYYYXX",
            "date suffix for Q must be between 01 and 04",
        ),
        Frequency::M | Frequency::W | Frequency::D => validate_yyyyxx(
            value,
            1,
            12,
            "date format for M/W/D must be YYYYXX",
            "date suffix for M/W/D must be between 01 and 12",
        ),
    }
}

/// Checks that two date strings share one shape and are in order. Setting
/// start and end in either order gives the same outcome.
pub fn validate_date_order(start: &str, end: &str) -> (r: Result<(), BojError>)
    ensures
        match r {
            Ok(()) => valid_date_order(start@, end@),
            Err(e) => !valid_date_order(start@, end@) && e matches
                BojError::ValidationError(_),
        },
{
    if start.unicode_len() != end.unicode_len() {
        return Err(BojError::validation("STARTDATE and ENDDATE formats must match"));
    }
    if !lex_le_str(start, end) {
        return Err(BojError::validation("STARTDATE must be earlier than or equal to ENDDATE"));
    }
    Ok(())
}

/// Checks a pagination start position; the first position is 1, so 0 is
/// rejected.
pub fn validate_start_position(value: u32) -> (r: Result<(), BojError>)
    ensures
        match r {
            Ok(()) => value != 0,
            Err(e) => value == 0 && e matches BojError::ValidationError(_),
        },
{
    if value == 0 {
        return Err(BojError::validation("STARTPOSITION must be >= 1"));
    }
    Ok(())
}

} // verus!
