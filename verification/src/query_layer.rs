//! Query builder for the by-layer data endpoint.

use vstd::prelude::*;

use crate::error::BojError;
use crate::options::{encoding_for_language, format_value, frequency_value, language_value,
    CsvEncoding, Format, Frequency, Language};
use crate::query_code::opt_pair;
use crate::text::{dec_str, join_comma, u32_string, upper_seq, upper_string};
use crate::validate::{
    layer_token_result, parse_layer_value, valid_date_for_frequency, valid_date_order, valid_db,
    validate_date_for_frequency, validate_date_order, validate_db, validate_start_position,
    LayerValue,
};
use crate::wire::push_pair;

verus! {

/// Mathematical model of a by-layer query.
pub ghost struct LayerQueryView {
    /// Database code, upper-cased.
    pub db: Seq<char>,
    /// Sampling frequency; it decides the accepted date shape.
    pub frequency: Frequency,
    /// Layer selectors, one to five, outermost first.
    pub layers: Seq<LayerValue>,
    /// Requested response format, when set.
    pub format: Option<Format>,
    /// Requested language, when set.
    pub lang: Option<Language>,
    /// Start date, when set.
    pub start_date: Option<Seq<char>>,
    /// End date, when set.
    pub end_date: Option<Seq<char>>,
    /// Pagination start position, when set.
    pub start_position: Option<u32>,
}

/// Everything a constructed by-layer query guarantees about its fields.
pub open spec fn wf_layer_query(v: LayerQueryView) -> bool {
    &&& valid_db(v.db)
    &&& 1 <= v.layers.len() <= 5
    &&& (forall|i: int|
        0 <= i < v.layers.len() ==> (#[trigger] v.layers[i] matches LayerValue::Index(n)
            ==> n > 0))
    &&& (v.start_date matches Some(d) ==> valid_date_for_frequency(d, v.frequency))
    &&& (v.end_date matches Some(d) ==> valid_date_for_frequency(d, v.frequency))
    &&& (match (v.start_date, v.end_date) {
        (Some(s), Some(e)) => valid_date_order(s, e),
        _ => true,
    })
    &&& (v.start_position matches Some(p) ==> p > 0)
}

/// The wire token of one layer selector.
pub open spec fn layer_value_str(lv: LayerValue) -> Seq<char> {
    match lv {
        LayerValue::Wildcard => seq!['*'],
        LayerValue::Index(n) => dec_str(n as nat),
    }
}

/// The comma-joined wire value of the layer selector list.
pub open spec fn layer_list_str(layers: Seq<LayerValue>) -> Seq<char> {
    join_comma(layers.map_values(|lv: LayerValue| layer_value_str(lv)))
}

/// What the by-layer constructor accepts: a valid database code and one to
/// five layer tokens, each the wildcard or a positive integer.
pub open spec fn layer_inputs_ok(db: Seq<char>, layers: Seq<Seq<char>>) -> bool {
    &&& valid_db(db)
    &&& 1 <= layers.len() <= 5
    &&& (forall|i: int|
        0 <= i < layers.len() ==> layer_token_result(#[trigger] layers[i]) is Some)
}

/// The ordered wire parameters of a by-layer query: format, lang, db,
/// frequency, layer, startDate, endDate, startPosition.
pub open spec fn layer_query_pairs(v: LayerQueryView) -> Seq<(Seq<char>, Seq<char>)> {
    opt_pair(
        "format"@,
        match v.format {
            Some(f) => Some(format_value(f)),
            None => None,
        },
    ) + opt_pair(
        "lang"@,
        match v.lang {
            Some(l) => Some(language_value(l)),
            None => None,
        },
    ) + seq![("db"@, v.db)] + seq![("frequency"@, frequency_value(v.frequency))] + seq![
        ("layer"@, layer_list_str(v.layers)),
    ] + opt_pair("startDate"@, v.start_date) + opt_pair("endDate"@, v.end_date) + opt_pair(
        "startPosition"@,
        match v.start_position {
            Some(p) => Some(dec_str(p as nat)),
            None => None,
        },
    )
}

/// Query builder for the by-layer data endpoint.
///
/// Constraints enforced at build time:
/// - the database code must pass [`validate_db`];
/// - one to five layer selectors, each the wildcard `*` or a positive
///   integer;
/// - the date shape depends on the frequency (see
///   [`validate_date_for_frequency`]), and when both dates are set they must
///   share one shape with `startDate <= endDate`;
/// - the start position must be at least 1.
#[derive(Debug, Clone, PartialEq, Eq)]
pub struct LayerQuery {
    db: String,
    frequency: Frequency,
    layers: Vec<LayerValue>,
    format: Option<Format>,
    lang: Option<Language>,
    start_date: Option<String>,
    end_date: Option<String>,
    start_position: Option<u32>,
}

impl View for LayerQuery {
    type V = LayerQueryView;

    closed spec fn view(&self) -> LayerQueryView {
        LayerQueryView {
            db: self.db@,
            frequency: self.frequency,
            layers: self.layers@,
            format: self.format,
            lang: self.lang,
            start_date: match self.start_date {
                Some(d) => Some(d@),
                None => None,
            },
            end_date: match self.end_date {
                Some(d) => Some(d@),
                None => None,
            },
            start_position: self.start_position,
        }
    }
}

impl LayerQuery {
    /// Creates a by-layer query. The database code is upper-cased; each
    /// layer token is parsed as the wildcard or a positive index. Fails with
    /// the first violated rule.
    pub fn new(db: &str, frequency: Frequency, layers: Vec<String>) -> (r: Result<
        Self,
        BojError,
    >)
        ensures
            match r {
                Ok(q) => layer_inputs_ok(db@, layers.deep_view()) && wf_layer_query(q@) && q@
                    == (LayerQueryView {
                    db: upper_seq(db@),
                    frequency,
                    layers: q@.layers,
                    format: None,
                    lang: None,
                    start_date: None,
                    end_date: None,
                    start_position: None,
                }) && q@.layers.len() == layers.len() && (forall|i: int|
                    0 <= i < layers.len() ==> layer_token_result(
                        #[trigger] layers.deep_view()[i],
                    ) == Some(q@.layers[i])),
                Err(e) => !layer_inputs_ok(db@, layers.deep_view()) && e matches
                    BojError::ValidationError(_),
            },
    {
        validate_db(db)?;
        if layers.len() == 0 {
            return Err(BojError::validation("LAYER is required"));
        }
        if layers.len() > 5 {
            return Err(BojError::validation("LAYER accepts 1 to 5 levels only"));
        }
        let mut parsed_layers: Vec<LayerValue> = Vec::new();
        let n = layers.len();
        for i in 0..n
            invariant
                n == layers.len(),
                parsed_layers.len() == i,
                forall|j: int|
                    0 <= j < i ==> layer_token_result(#[trigger] layers.deep_view()[j])
                        == Some(parsed_layers@[j]),
        {
            match parse_layer_value(layers[i].as_str()) {
                Ok(lv) => parsed_layers.push(lv),
                Err(e) => {
                    assert(layer_token_result(layers.deep_view()[i as int]) is None);
                    return Err(e);
                },
            }
        }
        assert(layer_inputs_ok(db@, layers.deep_view())) by {
            assert(layers.deep_view().len() == layers@.len());
        }
        proof {
            crate::query_code::lemma_upper_preserves_valid_db(db@);
            assert forall|i: int|
                0 <= i < parsed_layers@.len() implies (#[trigger] parsed_layers@[i] matches
                LayerValue::Index(np) ==> np > 0) by {
                assert(layer_token_result(layers.deep_view()[i]) == Some(parsed_layers@[i]));
            }
        }
        Ok(
            LayerQuery {
                db: upper_string(db),
                frequency,
                layers: parsed_layers,
                format: None,
                lang: None,
                start_date: None,
                end_date: None,
                start_position: None,
            },
        )
    }

    /// Sets the response format.
    pub fn with_format(self, format: Format) -> (r: Self)
        ensures
            r@ == (LayerQueryView { format: Some(format), ..self@ }),
    {
        LayerQuery { format: Some(format), ..self }
    }

    /// Sets the response language.
    pub fn with_lang(self, lang: Language) -> (r: Self)
        ensures
            r@ == (LayerQueryView { lang: Some(lang), ..self@ }),
    {
        LayerQuery { lang: Some(lang), ..self }
    }

    /// Sets `startDate` in the shape this query's frequency requires; when
    /// `endDate` is already set the pair must be in order.
    pub fn with_start_date(self, value: &str) -> (r: Result<Self, BojError>)
        ensures
            match r {
                Ok(q) => valid_date_for_frequency(value@, self@.frequency) && (self@.end_date
                    matches Some(e) ==> valid_date_order(value@, e)) && q@ == (LayerQueryView {
                    start_date: Some(value@),
                    ..self@
                }),
                Err(e) => (!valid_date_for_frequency(value@, self@.frequency) || (
                self@.end_date matches Some(ed) && !valid_date_order(value@, ed))) && e matches
                    BojError::ValidationError(_),
            },
    {
        validate_date_for_frequency(value, self.frequency)?;
        if let Some(end_date) = &self.end_date {
            validate_date_order(value, end_date.as_str())?;
        }
        Ok(LayerQuery { start_date: Some(value.to_owned()), ..self })
    }

    /// Sets `endDate` in the shape this query's frequency requires; when
    /// `startDate` is already set the pair must be in order.
    pub fn with_end_date(self, value: &str) -> (r: Result<Self, BojError>)
        ensures
            match r {
                Ok(q) => valid_date_for_frequency(value@, self@.frequency) && (
                self@.start_date matches Some(s) ==> valid_date_order(s, value@)) && q@ == (
                LayerQueryView { end_date: Some(value@), ..self@ }),
                Err(e) => (!valid_date_for_frequency(value@, self@.frequency) || (
                self@.start_date matches Some(sd) && !valid_date_order(sd, value@))) && e
                    matches BojError::ValidationError(_),
            },
    {
        validate_date_for_frequency(value, self.frequency)?;
        if let Some(start_date) = &self.start_date {
            validate_date_order(start_date.as_str(), value)?;
        }
        Ok(LayerQuery { end_date: Some(value.to_owned()), ..self })
    }

    /// Sets `startPosition`, which must be at least 1.
    pub fn with_start_position(self, start_position: u32) -> (r: Result<Self, BojError>)
        ensures
            match r {
                Ok(q) => start_position > 0 && q@ == (LayerQueryView {
                    start_position: Some(start_position),
                    ..self@
                }),
                Err(e) => start_position == 0 && e matches BojError::ValidationError(_),
            },
    {
        validate_start_position(start_position)?;
        Ok(LayerQuery { start_position: Some(start_position), ..self })
    }

    /// The endpoint path this query is sent to.
    pub fn endpoint(&self) -> (r: &'static str)
        ensures
            r@ == "/api/v1/getDataLayer"@,
    {
        "/api/v1/getDataLayer"
    }

    /// The ordered wire parameters of this query; see [`layer_query_pairs`].
    pub fn query_pairs(&self) -> (r: Vec<(String, String)>)
        ensures
            r.deep_view() == layer_query_pairs(self@),
    {
        let mut pairs: Vec<(String, String)> = Vec::new();
        if let Some(format) = self.format {
            push_pair(&mut pairs, "format", String::from_str(format.as_query_value()));
        }
        if let Some(lang) = self.lang {
            push_pair(&mut pairs, "lang", String::from_str(lang.as_query_value()));
        }
        push_pair(&mut pairs, "db", self.db.clone());
        push_pair(&mut pairs, "frequency", String::from_str(self.frequency.as_query_value()));
        push_pair(&mut pairs, "layer", layer_tokens_joined(&self.layers));
        if let Some(start_date) = &self.start_date {
            push_pair(&mut pairs, "startDate", start_date.clone());
        }
        if let Some(end_date) = &self.end_date {
            push_pair(&mut pairs, "endDate", end_date.clone());
        }
        if let Some(start_position) = self.start_position {
            push_pair(&mut pairs, "startPosition", u32_string(start_position));
        }
        assert(pairs.deep_view() =~= layer_query_pairs(self@));
        pairs
    }

    /// The tabular-payload encoding hint this query's language implies.
    pub fn csv_encoding_hint(&self) -> (r: CsvEncoding)
        ensures
            r == encoding_for_language(self@.lang),
    {
        match self.lang {
            Some(Language::En) => CsvEncoding::Utf8,
            _ => CsvEncoding::ShiftJis,
        }
    }
}

/// The wire token of one layer selector.
fn layer_value_string(lv: LayerValue) -> (r: String)
    ensures
        r@ == layer_value_str(lv),
{
    match lv {
        LayerValue::Wildcard => {
            let mut s = String::new();
            crate::text::push_char(&mut s, '*');
            assert(s@ =~= seq!['*']);
            s
        },
        LayerValue::Index(n) => u32_string(n),
    }
}

/// The comma-joined wire value of the layer selector list.
fn layer_tokens_joined(layers: &Vec<LayerValue>) -> (r: String)
    ensures
        r@ == layer_list_str(layers@),
{
    let mut tokens: Vec<String> = Vec::new();
    let n = layers.len();
    for i in 0..n
        invariant
            n == layers.len(),
            tokens@.len() == i,
            forall|j: int| 0 <= j < i ==> (#[trigger] tokens@[j])@ == layer_value_str(
                layers@[j],
            ),
    {
        tokens.push(layer_value_string(layers[i]));
    }
    let r = crate::text::join_comma_strings(&tokens);
    assert(tokens.deep_view() =~= layers@.map_values(|lv: LayerValue| layer_value_str(lv)));
    r
}

} // verus!
