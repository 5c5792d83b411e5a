//! Query builder for the metadata endpoint.

use vstd::prelude::*;

use crate::error::BojError;
use crate::options::{encoding_for_language, format_value, language_value, CsvEncoding, Format,
    Language};
use crate::query_code::opt_pair;
use crate::text::{upper_seq, upper_string};
use crate::validate::{valid_db, validate_db};
use crate::wire::push_pair;

verus! {

/// Mathematical model of a metadata query.
pub ghost struct MetadataQueryView {
    /// Database code, upper-cased.
    pub db: Seq<char>,
    /// Requested response format, when set.
    pub format: Option<Format>,
    /// Requested language, when set.
    pub lang: Option<Language>,
}

/// Everything a constructed metadata query guarantees about its fields.
pub open spec fn wf_metadata_query(v: MetadataQueryView) -> bool {
    valid_db(v.db)
}

/// The ordered wire parameters of a metadata query: format, lang, db.
pub open spec fn metadata_query_pairs(v: MetadataQueryView) -> Seq<(Seq<char>, Seq<char>)> {
    opt_pair(
        "format"@,
        match v.format {
            Some(f) => Some(format_value(f)),
            None => None,
        },
    ) + opt_pair(
        "lang"@,
        match v.lang {
            Some(l) => Some(language_value(l)),
            None => None,
        },
    ) + seq![("db"@, v.db)]
}

/// Query builder for the metadata endpoint. Only the database code is
/// validated; see [`validate_db`].
#[derive(Debug, Clone, PartialEq, Eq)]
pub struct MetadataQuery {
    db: String,
    format: Option<Format>,
    lang: Option<Language>,
}

impl View for MetadataQuery {
    type V = MetadataQueryView;

    closed spec fn view(&self) -> MetadataQueryView {
        MetadataQueryView { db: self.db@, format: self.format, lang: self.lang }
    }
}

impl MetadataQuery {
    /// Creates a metadata query. The database code is upper-cased.
    pub fn new(db: &str) -> (r: Result<Self, BojError>)
        ensures
            match r {
                Ok(q) => valid_db(db@) && wf_metadata_query(q@) && q@ == (MetadataQueryView {
                    db: upper_seq(db@),
                    format: None,
                    lang: None,
                }),
                Err(e) => !valid_db(db@) && e matches BojError::ValidationError(_),
            },
    {
        validate_db(db)?;
        proof {
            crate::query_code::lemma_upper_preserves_valid_db(db@);
        }
        Ok(MetadataQuery { db: upper_string(db), format: None, lang: None })
    }

    /// Sets the response format.
    pub fn with_format(self, format: Format) -> (r: Self)
        ensures
            r@ == (MetadataQueryView { format: Some(format), ..self@ }),
    {
        MetadataQuery { format: Some(format), ..self }
    }

    /// Sets the response language.
    pub fn with_lang(self, lang: Language) -> (r: Self)
        ensures
            r@ == (MetadataQueryView { lang: Some(lang), ..self@ }),
    {
        MetadataQuery { lang: Some(lang), ..self }
    }

    /// The endpoint path this query is sent to.
    pub fn endpoint(&self) -> (r: &'static str)
        ensures
            r@ == "/api/v1/getMetadata"@,
    {
        "/api/v1/getMetadata"
    }

    /// The ordered wire parameters of this query; see
    /// [`metadata_query_pairs`].
    pub fn query_pairs(&self) -> (r: Vec<(String, String)>)
        ensures
            r.deep_view() == metadata_query_pairs(self@),
    {
        let mut pairs: Vec<(String, String)> = Vec::new();
        if let Some(format) = self.format {
            push_pair(&mut pairs, "format", String::from_str(format.as_query_value()));
        }
        if let Some(lang) = self.lang {
            push_pair(&mut pairs, "lang", String::from_str(lang.as_query_value()));
        }
        push_pair(&mut pairs, "db", self.db.clone());
        assert(pairs.deep_view() =~= metadata_query_pairs(self@));
        pairs
    }

    /// The tabular-payload encoding hint this query's language implies.
    pub fn csv_encoding_hint(&self) -> (r: CsvEncoding)
        ensures
            r == encoding_for_language(self@.lang),
    {
        match self.lang {
            Some(Language::En) => CsvEncoding::Utf8,
            _ => CsvEncoding::ShiftJis,
        }
    }
}

} // verus!
