//! Request option enums shared by the query builders and the decoders.

use vstd::prelude::*;

verus! {

/// Response format parameter understood by the API endpoints.
#[derive(Debug, Clone, Copy, PartialEq, Eq, Structural)]
pub enum Format {
    /// Structured response (`format=json`).
    Json,
    /// Tabular response (`format=csv`).
    Csv,
}

/// The wire value of a [`Format`].
pub open spec fn format_value(f: Format) -> Seq<char> {
    match f {
        Format::Json => "json"@,
        Format::Csv => "csv"@,
    }
}

impl Format {
    /// Returns the query parameter value for this format.
    pub fn as_query_value(self) -> (r: &'static str)
        ensures
            r@ == format_value(self),
    {
        match self {
            Format::Json => "json",
            Format::Csv => "csv",
        }
    }
}

/// Language option for localized labels in API responses.
#[derive(Debug, Clone, Copy, PartialEq, Eq, Structural)]
pub enum Language {
    /// Japanese labels (`lang=jp`).
    Jp,
    /// English labels (`lang=en`).
    En,
}

impl Default for Language {
    /// The API's default language is Japanese.
    fn default() -> (r: Self)
        ensures
            r == Language::Jp,
    {
        Language::Jp
    }
}

/// The wire value of a [`Language`].
pub open spec fn language_value(l: Language) -> Seq<char> {
    match l {
        Language::Jp => "jp"@,
        Language::En => "en"@,
    }
}

impl Language {
    /// Returns the query parameter value for this language.
    pub fn as_query_value(self) -> (r: &'static str)
        ensures
            r@ == language_value(self),
    {
        match self {
            Language::Jp => "jp",
            Language::En => "en",
        }
    }
}

/// Frequency selector used by the layer endpoint; it decides the accepted
/// date-string shape.
#[derive(Debug, Clone, Copy, PartialEq, Eq, Structural)]
pub enum Frequency {
    /// Calendar-year frequency (`CY`).
    Cy,
    /// Fiscal-year frequency (`FY`).
    Fy,
    /// Half-year frequency on a calendar-year basis (`CH`).
    Ch,
    /// Half-year frequency on a fiscal-year basis (`FH`).
    Fh,
    /// Quarterly frequency (`Q`).
    Q,
    /// Monthly frequency (`M`).
    M,
    /// Weekly frequency (`W`).
    W,
    /// Daily frequency (`D`).
    D,
}

/// The wire value of a [`Frequency`].
pub open spec fn frequency_value(f: Frequency) -> Seq<char> {
    match f {
        Frequency::Cy => "CY"@,
        Frequency::Fy => "FY"@,
        Frequency::Ch => "CH"@,
        Frequency::Fh => "FH"@,
        Frequency::Q => "Q"@,
        Frequency::M => "M"@,
        Frequency::W => "W"@,
        Frequency::D => "D"@,
    }
}

impl Frequency {
    /// Returns the query parameter value for this frequency.
    pub fn as_query_value(self) -> (r: &'static str)
        ensures
            r@ == frequency_value(self),
    {
        match self {
            Frequency::Cy => "CY",
            Frequency::Fy => "FY",
            Frequency::Ch => "CH",
            Frequency::Fh => "FH",
            Frequency::Q => "Q",
            Frequency::M => "M",
            Frequency::W => "W",
            Frequency::D => "D",
        }
    }
}

/// Expected tabular-payload character encoding, derived from the requested
/// language: Japanese implies the single-byte legacy encoding, English the
/// universal one.
#[derive(Debug, Clone, Copy, PartialEq, Eq, Structural)]
pub enum CsvEncoding {
    /// Shift_JIS-encoded tabular payload.
    ShiftJis,
    /// UTF-8 encoded tabular payload.
    Utf8,
}

/// The encoding hint that a requested language implies.
pub open spec fn encoding_for_language(l: Option<Language>) -> CsvEncoding {
    match l {
        Some(Language::En) => CsvEncoding::Utf8,
        _ => CsvEncoding::ShiftJis,
    }
}

} // verus!
