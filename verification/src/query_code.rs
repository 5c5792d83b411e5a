//! Query builder for the by-code data endpoint.

use vstd::prelude::*;

use crate::error::BojError;
use crate::options::{encoding_for_language, format_value, language_value, CsvEncoding, Format,
    Language};
use crate::text::{dec_str, join_comma, u32_string, upper_seq, upper_string};
use crate::validate::{
    valid_code_list, valid_date_generic, valid_date_order, valid_db, validate_code_list,
    validate_date_generic, validate_date_order, validate_db, validate_start_position,
};
use crate::wire::push_pair;

verus! {

/// Mathematical model of a by-code query.
pub ghost struct CodeQueryView {
    /// Database code, upper-cased.
    pub db: Seq<char>,
    /// Series codes, in the order given.
    pub codes: Seq<Seq<char>>,
    /// Requested response format, when set.
    pub format: Option<Format>,
    /// Requested language, when set.
    pub lang: Option<Language>,
    /// Start date, when set.
    pub start_date: Option<Seq<char>>,
    /// End date, when set.
    pub end_date: Option<Seq<char>>,
    /// Pagination start position, when set.
    pub start_position: Option<u32>,
}

/// Everything a constructed by-code query guarantees about its fields.
pub open spec fn wf_code_query(v: CodeQueryView) -> bool {
    &&& valid_db(v.db)
    &&& valid_code_list(v.codes)
    &&& (v.start_date matches Some(d) ==> valid_date_generic(d))
    &&& (v.end_date matches Some(d) ==> valid_date_generic(d))
    &&& (match (v.start_date, v.end_date) {
        (Some(s), Some(e)) => valid_date_order(s, e),
        _ => true,
    })
    &&& (v.start_position matches Some(p) ==> p > 0)
}

/// One optional wire pair.
pub open spec fn opt_pair(key: Seq<char>, v: Option<Seq<char>>) -> Seq<(Seq<char>, Seq<char>)> {
    match v {
        Some(x) => seq![(key, x)],
        None => Seq::empty(),
    }
}

/// The ordered wire parameters of a by-code query: format, lang, db,
/// startDate, endDate, code, startPosition; optional fields are omitted when
/// unset, and the codes are joined with commas.
pub open spec fn code_query_pairs(v: CodeQueryView) -> Seq<(Seq<char>, Seq<char>)> {
    opt_pair(
        "format"@,
        match v.format {
            Some(f) => Some(format_value(f)),
            None => None,
        },
    ) + opt_pair(
        "lang"@,
        match v.lang {
            Some(l) => Some(language_value(l)),
            None => None,
        },
    ) + seq![("db"@, v.db)] + opt_pair("startDate"@, v.start_date) + opt_pair(
        "endDate"@,
        v.end_date,
    ) + seq![("code"@, join_comma(v.codes))] + opt_pair(
        "startPosition"@,
        match v.start_position {
            Some(p) => Some(dec_str(p as nat)),
            None => None,
        },
    )
}

/// Upper-casing preserves the database-code rules.
pub(crate) proof fn lemma_upper_preserves_valid_db(s: Seq<char>)
    requires
        valid_db(s),
    ensures
        valid_db(upper_seq(s)),
{
    let u = upper_seq(s);
    assert(u.len() == s.len());
    assert(!crate::text::all_ws(u)) by {
        let i = choose|i: int| 0 <= i < s.len() && !crate::text::is_ws_char(#[trigger] s[i]);
        assert(u[i] == crate::text::upper_char(s[i]));
        assert(!crate::text::is_ws_char(u[i]));
    }
    assert forall|i: int| 0 <= i < u.len() implies '\0' <= #[trigger] u[i] <= '\u{7f}' by {
        assert(u[i] == crate::text::upper_char(s[i]));
        assert('\0' <= s[i] <= '\u{7f}');
    }
    assert forall|i: int| 0 <= i < u.len() implies !crate::validate::forbidden_char(
        #[trigger] u[i],
    ) by {
        assert(u[i] == crate::text::upper_char(s[i]));
        assert(!crate::validate::forbidden_char(s[i]));
    }
    assert(!u.contains(',')) by {
        if u.contains(',') {
            let i = choose|i: int| 0 <= i < u.len() && u[i] == ',';
            assert(u[i] == crate::text::upper_char(s[i]));
            assert(s[i] == ',');
            assert(s.contains(','));
        }
    }
}

/// Query builder for the by-code data endpoint.
///
/// Constraints enforced at build time:
/// - the database code must pass [`validate_db`];
/// - the code list must pass [`validate_code_list`] (1 to 1250 comma-free
///   identifiers);
/// - dates must be `YYYY` or `YYYYXX` (`XX` in `01..=12`) with the year in
///   `1850..=2050`, and when both are set they must share one shape with
///   `startDate <= endDate`;
/// - the start position must be at least 1.
#[derive(Debug, Clone, PartialEq, Eq)]
pub struct CodeQuery {
    db: String,
    codes: Vec<String>,
    format: Option<Format>,
    lang: Option<Language>,
    start_date: Option<String>,
    end_date: Option<String>,
    start_position: Option<u32>,
}

impl View for CodeQuery {
    type V = CodeQueryView;

    closed spec fn view(&self) -> CodeQueryView {
        CodeQueryView {
            db: self.db@,
            codes: self.codes.deep_view(),
            format: self.format,
            lang: self.lang,
            start_date: match self.start_date {
                Some(d) => Some(d@),
                None => None,
            },
            end_date: match self.end_date {
                Some(d) => Some(d@),
                None => None,
            },
            start_position: self.start_position,
        }
    }
}

impl CodeQuery {
    /// Creates a by-code query. The database code is upper-cased; everything
    /// else is kept as given. Fails with the first violated rule.
    pub fn new(db: &str, codes: Vec<String>) -> (r: Result<Self, BojError>)
        ensures
            match r {
                Ok(q) => valid_db(db@) && valid_code_list(codes.deep_view()) && wf_code_query(
                    q@,
                ) && q@ == (CodeQueryView {
                    db: upper_seq(db@),
                    codes: codes.deep_view(),
                    format: None,
                    lang: None,
                    start_date: None,
                    end_date: None,
                    start_position: None,
                }),
                Err(e) => !(valid_db(db@) && valid_code_list(codes.deep_view())) && e matches
                    BojError::ValidationError(_),
            },
    {
        validate_db(db)?;
        validate_code_list(&codes)?;
        proof {
            lemma_upper_preserves_valid_db(db@);
        }
        Ok(
            CodeQuery {
                db: upper_string(db),
                codes,
                format: None,
                lang: None,
                start_date: None,
                end_date: None,
                start_position: None,
            },
        )
    }

    /// Sets the response format.
    pub fn with_format(self, format: Format) -> (r: Self)
        ensures
            r@ == (CodeQueryView { format: Some(format), ..self@ }),
    {
        CodeQuery { format: Some(format), ..self }
    }

    /// Sets the response language.
    pub fn with_lang(self, lang: Language) -> (r: Self)
        ensures
            r@ == (CodeQueryView { lang: Some(lang), ..self@ }),
    {
        CodeQuery { lang: Some(lang), ..self }
    }

    /// Sets `startDate`; when `endDate` is already set the pair must be in
    /// order, so setting the dates in either order gives the same outcome.
    pub fn with_start_date(self, value: &str) -> (r: Result<Self, BojError>)
        ensures
            match r {
                Ok(q) => valid_date_generic(value@) && (self@.end_date matches Some(e)
                    ==> valid_date_order(value@, e)) && q@ == (CodeQueryView {
                    start_date: Some(value@),
                    ..self@
                }),
                Err(e) => (!valid_date_generic(value@) || (self@.end_date matches Some(ed)
                    && !valid_date_order(value@, ed))) && e matches
                    BojError::ValidationError(_),
            },
    {
        validate_date_generic(value)?;
        if let Some(end_date) = &self.end_date {
            validate_date_order(value, end_date.as_str())?;
        }
        Ok(CodeQuery { start_date: Some(value.to_owned()), ..self })
    }

    /// Sets `endDate`; when `startDate` is already set the pair must be in
    /// order.
    pub fn with_end_date(self, value: &str) -> (r: Result<Self, BojError>)
        ensures
            match r {
                Ok(q) => valid_date_generic(value@) && (self@.start_date matches Some(s)
                    ==> valid_date_order(s, value@)) && q@ == (CodeQueryView {
                    end_date: Some(value@),
                    ..self@
                }),
                Err(e) => (!valid_date_generic(value@) || (self@.start_date matches Some(sd)
                    && !valid_date_order(sd, value@))) && e matches
                    BojError::ValidationError(_),
            },
    {
        validate_date_generic(value)?;
        if let Some(start_date) = &self.start_date {
            validate_date_order(start_date.as_str(), value)?;
        }
        Ok(CodeQuery { end_date: Some(value.to_owned()), ..self })
    }

    /// Sets `startPosition`, which must be at least 1.
    pub fn with_start_position(self, start_position: u32) -> (r: Result<Self, BojError>)
        ensures
            match r {
                Ok(q) => start_position > 0 && q@ == (CodeQueryView {
                    start_position: Some(start_position),
                    ..self@
                }),
                Err(e) => start_position == 0 && e matches BojError::ValidationError(_),
            },
    {
        validate_start_position(start_position)?;
        Ok(CodeQuery { start_position: Some(start_position), ..self })
    }

    /// The endpoint path this query is sent to.
    pub fn endpoint(&self) -> (r: &'static str)
        ensures
            r@ == "/api/v1/getDataCode"@,
    {
        "/api/v1/getDataCode"
    }

    /// The ordered wire parameters of this query; see [`code_query_pairs`].
    pub fn query_pairs(&self) -> (r: Vec<(String, String)>)
        ensures
            r.deep_view() == code_query_pairs(self@),
    {
        let mut pairs: Vec<(String, String)> = Vec::new();
        if let Some(format) = self.format {
            push_pair(&mut pairs, "format", String::from_str(format.as_query_value()));
        }
        if let Some(lang) = self.lang {
            push_pair(&mut pairs, "lang", String::from_str(lang.as_query_value()));
        }
        push_pair(&mut pairs, "db", self.db.clone());
        if let Some(start_date) = &self.start_date {
            push_pair(&mut pairs, "startDate", start_date.clone());
        }
        if let Some(end_date) = &self.end_date {
            push_pair(&mut pairs, "endDate", end_date.clone());
        }
        push_pair(&mut pairs, "code", crate::text::join_comma_strings(&self.codes));
        if let Some(start_position) = self.start_position {
            push_pair(&mut pairs, "startPosition", u32_string(start_position));
        }
        assert(pairs.deep_view() =~= code_query_pairs(self@));
        pairs
    }

    /// The tabular-payload encoding hint this query's language implies.
    pub fn csv_encoding_hint(&self) -> (r: CsvEncoding)
        ensures
            r == encoding_for_language(self@.lang),
    {
        match self.lang {
            Some(Language::En) => CsvEncoding::Utf8,
            _ => CsvEncoding::ShiftJis,
        }
    }
}

} // verus!
