//! The tool layer over the client core: plain input and output records for
//! each exposed operation, the mapping from tool inputs to validated
//! queries, catalog outputs, and error payloads.

use vstd::prelude::*;

use crate::catalog::{
    databases, format_codes, frequency_codes, general_notes, language_codes, layer_rules,
    message_codes, parameter_specs, request_limits, requirement_text, EndpointRequirement,
    MessageCodeSpec, ParameterSpec, RequestLimit,
};
use crate::error::BojError;
use crate::model::{
    opt_view, CodeParameterEcho, CodeResponse, CodeSeries, LayerParameterEcho, LayerResponse,
    LayerSeries, MetadataEntry, MetadataResponse, ResponseMeta,
};
use crate::options::{Format, Frequency, Language};
use crate::query_code::{wf_code_query, CodeQuery, CodeQueryView};
use crate::query_layer::{wf_layer_query, LayerQuery};
use crate::query_metadata::{wf_metadata_query, MetadataQuery, MetadataQueryView};
use crate::retry::{spec_should_retry, RetryPolicy};
use crate::text::{
    is_prefix, lower_seq, lower_string, split_comma, starts_with_str, str_eq, upper_seq,
};
use crate::validate::{
    layer_token_result, valid_code_list, valid_date_for_frequency, valid_date_generic,
    valid_date_order, valid_db,
};

verus! {

/// Server configuration handed in by the process around the library.
#[derive(Debug, Clone, PartialEq, Eq)]
pub struct Config {
    /// Base URL of the upstream API.
    pub base_url: String,
    /// Transport timeout, in milliseconds.
    pub timeout_ms: u64,
    /// Number of retries after the first attempt.
    pub retry_max: u32,
    /// Backoff before the first retry, in milliseconds.
    pub retry_backoff_ms: u64,
}

impl Config {
    /// The retry policy this configuration selects.
    pub fn retry_policy(&self) -> (r: RetryPolicy)
        ensures
            r == (RetryPolicy {
                max_retries: self.retry_max,
                initial_backoff_ms: self.retry_backoff_ms,
            }),
    {
        RetryPolicy { max_retries: self.retry_max, initial_backoff_ms: self.retry_backoff_ms }
    }
}

/// Tool-facing response format parameter.
#[derive(Debug, Clone, Copy, PartialEq, Eq, Structural)]
pub enum FormatParam {
    /// Structured output.
    Json,
    /// Tabular output.
    Csv,
}

impl FormatParam {
    /// The request option this parameter selects.
    pub fn to_format(self) -> (r: Format)
        ensures
            r == (match self {
                FormatParam::Json => Format::Json,
                FormatParam::Csv => Format::Csv,
            }),
    {
        match self {
            FormatParam::Json => Format::Json,
            FormatParam::Csv => Format::Csv,
        }
    }
}

/// Tool-facing language parameter.
#[derive(Debug, Clone, Copy, PartialEq, Eq, Structural)]
pub enum LanguageParam {
    /// Japanese labels.
    Jp,
    /// English labels.
    En,
}

impl LanguageParam {
    /// The request option this parameter selects.
    pub fn to_language(self) -> (r: Language)
        ensures
            r == (match self {
                LanguageParam::Jp => Language::Jp,
                LanguageParam::En => Language::En,
            }),
    {
        match self {
            LanguageParam::Jp => Language::Jp,
            LanguageParam::En => Language::En,
        }
    }
}

/// Tool-facing frequency parameter.
#[derive(Debug, Clone, Copy, PartialEq, Eq, Structural)]
pub enum FrequencyParam {
    /// Calendar-year frequency.
    Cy,
    /// Fiscal-year frequency.
    Fy,
    /// Half-year frequency on a calendar-year basis.
    Ch,
    /// Half-year frequency on a fiscal-year basis.
    Fh,
    /// Quarterly frequency.
    Q,
    /// Monthly frequency.
    M,
    /// Weekly frequency.
    W,
    /// Daily frequency.
    D,
}

/// The request option a frequency parameter selects.
pub open spec fn frequency_of_param(p: FrequencyParam) -> Frequency {
    match p {
        FrequencyParam::Cy => Frequency::Cy,
        FrequencyParam::Fy => Frequency::Fy,
        FrequencyParam::Ch => Frequency::Ch,
        FrequencyParam::Fh => Frequency::Fh,
        FrequencyParam::Q => Frequency::Q,
        FrequencyParam::M => Frequency::M,
        FrequencyParam::W => Frequency::W,
        FrequencyParam::D => Frequency::D,
    }
}

impl FrequencyParam {
    /// The request option this parameter selects.
    pub fn to_frequency(self) -> (r: Frequency)
        ensures
            r == frequency_of_param(self),
    {
        match self {
            FrequencyParam::Cy => Frequency::Cy,
            FrequencyParam::Fy => Frequency::Fy,
            FrequencyParam::Ch => Frequency::Ch,
            FrequencyParam::Fh => Frequency::Fh,
            FrequencyParam::Q => Frequency::Q,
            FrequencyParam::M => Frequency::M,
            FrequencyParam::W => Frequency::W,
            FrequencyParam::D => Frequency::D,
        }
    }
}

/// Endpoint scope selector for catalog queries.
#[derive(Debug, Clone, Copy, PartialEq, Eq, Structural)]
pub enum EndpointScopeParam {
    /// Every endpoint.
    All,
    /// The by-code data endpoint.
    GetDataCode,
    /// The by-layer data endpoint.
    GetDataLayer,
    /// The metadata endpoint.
    GetMetadata,
}

/// Input of the by-code data tool.
#[derive(Debug, Clone, PartialEq, Eq)]
pub struct GetDataCodeInput {
    /// Database code.
    pub db: String,
    /// Series codes.
    pub codes: Vec<String>,
    /// Requested response format, when set.
    pub format: Option<FormatParam>,
    /// Requested language, when set.
    pub lang: Option<LanguageParam>,
    /// Start date, when set.
    pub start_date: Option<String>,
    /// End date, when set.
    pub end_date: Option<String>,
    /// Pagination start position, when set.
    pub start_position: Option<u32>,
    /// Whether the raw payload text is included in the output.
    pub include_raw: bool,
}

/// Input of the by-layer data tool.
#[derive(Debug, Clone, PartialEq, Eq)]
pub struct GetDataLayerInput {
    /// Database code.
    pub db: String,
    /// Sampling frequency.
    pub frequency: FrequencyParam,
    /// Layer selector tokens, outermost first.
    pub layers: Vec<String>,
    /// Requested response format, when set.
    pub format: Option<FormatParam>,
    /// Requested language, when set.
    pub lang: Option<LanguageParam>,
    /// Start date, when set.
    pub start_date: Option<String>,
    /// End date, when set.
    pub end_date: Option<String>,
    /// Pagination start position, when set.
    pub start_position: Option<u32>,
    /// Whether the raw payload text is included in the output.
    pub include_raw: bool,
}

/// Input of the metadata tool.
#[derive(Debug, Clone, PartialEq, Eq)]
pub struct GetMetadataInput {
    /// Database code.
    pub db: String,
    /// Requested response format, when set.
    pub format: Option<FormatParam>,
    /// Requested language, when set.
    pub lang: Option<LanguageParam>,
    /// Whether the raw payload text is included in the output.
    pub include_raw: bool,
}

/// Input of the database-list tool: no parameters.
#[derive(Debug, Clone, PartialEq, Eq)]
pub struct ListDatabasesInput {}

/// Input of the parameter-catalog tool.
#[derive(Debug, Clone, Copy, PartialEq, Eq, Structural)]
pub struct GetParameterCatalogInput {
    /// The endpoint scope to filter by.
    pub endpoint: EndpointScopeParam,
}

/// Input of the message-catalog tool.
#[derive(Debug, Clone, Copy, PartialEq, Eq, Structural)]
pub struct GetMessageCatalogInput {
    /// Keep only rows with this status, when set.
    pub status: Option<u16>,
}

/// Response metadata as a tool output.
#[derive(Debug, Clone, PartialEq, Eq)]
pub struct MetaOutput {
    /// Server status code.
    pub status: u16,
    /// Server message identifier.
    pub message_id: String,
    /// Human-readable server message.
    pub message: String,
    /// Response date value, when available.
    pub date: Option<String>,
}

/// Output of the by-code data tool.
#[derive(Debug, Clone, PartialEq, Eq)]
pub struct CodeToolOutput {
    /// Response metadata.
    pub meta: MetaOutput,
    /// Echoed request parameters.
    pub parameter: CodeParameterEcho,
    /// Pagination cursor, when available.
    pub next_position: Option<u32>,
    /// Number of returned series.
    pub series_count: usize,
    /// Returned series entries.
    pub series: Vec<CodeSeries>,
    /// Raw payload text, when requested.
    pub raw: Option<String>,
}

/// Output of the by-layer data tool.
#[derive(Debug, Clone, PartialEq, Eq)]
pub struct LayerToolOutput {
    /// Response metadata.
    pub meta: MetaOutput,
    /// Echoed request parameters.
    pub parameter: LayerParameterEcho,
    /// Pagination cursor, when available.
    pub next_position: Option<u32>,
    /// Number of returned series.
    pub series_count: usize,
    /// Returned series entries.
    pub series: Vec<LayerSeries>,
    /// Raw payload text, when requested.
    pub raw: Option<String>,
}

/// Output of the metadata tool.
#[derive(Debug, Clone, PartialEq, Eq)]
pub struct MetadataToolOutput {
    /// Response metadata.
    pub meta: MetaOutput,
    /// Database code the metadata belongs to.
    pub db: String,
    /// Number of returned entries.
    pub entries_count: usize,
    /// Returned metadata entries.
    pub entries: Vec<MetadataEntry>,
    /// Raw payload text, when requested.
    pub raw: Option<String>,
}

/// One known database as a tool output.
#[derive(Debug, Clone, PartialEq, Eq)]
pub struct DatabaseCatalogEntryOutput {
    /// Statistics category label, in Japanese.
    pub category_ja: String,
    /// Database code.
    pub code: String,
    /// Database name label, in Japanese.
    pub name_ja: String,
}

/// Output of the database-list tool.
#[derive(Debug, Clone, PartialEq, Eq)]
pub struct ListDatabasesOutput {
    /// Source document of the catalog snapshot.
    pub source_document: String,
    /// Source publication date.
    pub source_date: String,
    /// Number of listed databases.
    pub count: usize,
    /// The listed databases.
    pub databases: Vec<DatabaseCatalogEntryOutput>,
}

/// Requirement levels of one parameter across the three endpoints.
#[derive(Debug, Clone, PartialEq, Eq)]
pub struct RequirementMatrixOutput {
    /// Requirement text for the by-code endpoint.
    pub code_api: String,
    /// Requirement text for the by-layer endpoint.
    pub layer_api: String,
    /// Requirement text for the metadata endpoint.
    pub metadata_api: String,
}

/// One parameter row as a tool output.
#[derive(Debug, Clone, PartialEq, Eq)]
pub struct ParameterCatalogEntryOutput {
    /// Parameter name.
    pub name: String,
    /// Purpose summary, in Japanese.
    pub description_ja: String,
    /// Allowed-value summary.
    pub allowed_values: String,
    /// Requirement levels across the endpoints.
    pub requirements: RequirementMatrixOutput,
    /// Additional notes.
    pub notes: Vec<String>,
}

/// One request limit as a tool output.
#[derive(Debug, Clone, PartialEq, Eq)]
pub struct RequestLimitOutput {
    /// The endpoints the limit applies to, comma-separated.
    pub api_scope: String,
    /// What the limit counts.
    pub target: String,
    /// The maximum value allowed.
    pub max_value: u32,
    /// What happens when the limit is exceeded.
    pub overflow_behavior: String,
}

/// Output of the parameter-catalog tool.
#[derive(Debug, Clone, PartialEq, Eq)]
pub struct ParameterCatalogOutput {
    /// Source document of the catalog snapshot.
    pub source_document: String,
    /// Source publication date.
    pub source_date: String,
    /// The endpoint scope the output was filtered by.
    pub endpoint_scope: String,
    /// Global parameter notes.
    pub general_notes: Vec<String>,
    /// Output format codes the upstream accepts.
    pub format_codes: Vec<String>,
    /// Language codes the upstream accepts.
    pub language_codes: Vec<String>,
    /// Format values the tools accept.
    pub mcp_format_codes: Vec<String>,
    /// Language values the tools accept.
    pub mcp_language_codes: Vec<String>,
    /// Frequency codes, for scopes that take a frequency.
    pub frequency_codes: Vec<String>,
    /// The filtered parameter rows.
    pub parameters: Vec<ParameterCatalogEntryOutput>,
    /// The filtered request limits.
    pub limits: Vec<RequestLimitOutput>,
    /// Layer selection rules, for scopes that take layers.
    pub layer_rules: Vec<String>,
}

/// One status/message row as a tool output.
#[derive(Debug, Clone, PartialEq, Eq)]
pub struct MessageCatalogEntryOutput {
    /// Server status value.
    pub status: u16,
    /// Server message identifier.
    pub message_id: String,
    /// Server message text.
    pub message: String,
    /// Notes from the lookup table.
    pub note: String,
}

/// Output of the message-catalog tool.
#[derive(Debug, Clone, PartialEq, Eq)]
pub struct MessageCatalogOutput {
    /// Source document of the catalog snapshot.
    pub source_document: String,
    /// Source publication date.
    pub source_date: String,
    /// The status the output was filtered by, when set.
    pub status_filter: Option<u16>,
    /// Number of listed rows.
    pub count: usize,
    /// The listed rows.
    pub messages: Vec<MessageCatalogEntryOutput>,
}

/// Structured error payload of a failed tool call.
#[derive(Debug, Clone, PartialEq, Eq)]
pub struct ToolErrorOutput {
    /// The error class name.
    pub error_type: String,
    /// The error message.
    pub message: String,
    /// Whether a retry may help.
    pub retryable: bool,
    /// Server status, for API errors.
    pub status: Option<u16>,
    /// Server message identifier, for API errors.
    pub message_id: Option<String>,
}

/// The error class name of an error.
pub open spec fn error_type_text(e: BojError) -> Seq<char> {
    match e {
        BojError::ValidationError(_) => "VALIDATION_ERROR"@,
        BojError::TransportError(_) => "TRANSPORT_ERROR"@,
        BojError::DecodeError(_) => "DECODE_ERROR"@,
        BojError::ApiError { .. } => "API_ERROR"@,
    }
}

/// Turns one error into the structured payload of a failed tool call: the
/// class name, the message, retry eligibility, and, for API errors, the
/// decoded status and message identifier.
pub fn to_tool_error(error: BojError) -> (r: ToolErrorOutput)
    ensures
        r.error_type@ == error_type_text(error),
        r.retryable == spec_should_retry(error),
        (match error {
            BojError::ValidationError(m) => r.message@ == m@ && r.status is None
                && r.message_id is None,
            BojError::TransportError(m) => r.message@ == m@ && r.status is None
                && r.message_id is None,
            BojError::DecodeError(m) => r.message@ == m@ && r.status is None && r.message_id
                is None,
            BojError::ApiError { status, message_id, message } => r.message@ == message@
                && r.status == Some(status) && opt_view(r.message_id) == Some(message_id@),
        }),
{
    match error {
        BojError::ValidationError(message) => ToolErrorOutput {
            error_type: String::from_str("VALIDATION_ERROR"),
            message,
            retryable: false,
            status: None,
            message_id: None,
        },
        BojError::TransportError(message) => ToolErrorOutput {
            error_type: String::from_str("TRANSPORT_ERROR"),
            message,
            retryable: true,
            status: None,
            message_id: None,
        },
        BojError::DecodeError(message) => ToolErrorOutput {
            error_type: String::from_str("DECODE_ERROR"),
            message,
            retryable: false,
            status: None,
            message_id: None,
        },
        BojError::ApiError { status, message_id, message } => ToolErrorOutput {
            error_type: String::from_str("API_ERROR"),
            message,
            retryable: status == 500 || status == 503,
            status: Some(status),
            message_id: Some(message_id),
        },
    }
}

/// Whether a by-code tool input passes every validation rule.
pub open spec fn code_input_ok(input: GetDataCodeInput) -> bool {
    &&& valid_db(input.db@)
    &&& valid_code_list(input.codes.deep_view())
    &&& (input.start_date matches Some(d) ==> valid_date_generic(d@))
    &&& (input.end_date matches Some(d) ==> valid_date_generic(d@))
    &&& (match (input.start_date, input.end_date) {
        (Some(s), Some(e)) => valid_date_order(s@, e@),
        _ => true,
    })
    &&& (input.start_position matches Some(p) ==> p > 0)
}

/// Builds a validated by-code query from a tool input; the first violated
/// rule fails the build.
pub fn build_code_query(input: &GetDataCodeInput) -> (r: Result<CodeQuery, BojError>)
    ensures
        match r {
            Ok(q) => code_input_ok(*input) && wf_code_query(q@) && q@ == (CodeQueryView {
                db: upper_seq(input.db@),
                codes: input.codes.deep_view(),
                format: match input.format {
                    Some(f) => Some(frequency_free_format(f)),
                    None => None,
                },
                lang: match input.lang {
                    Some(l) => Some(language_of(l)),
                    None => None,
                },
                start_date: opt_view(input.start_date),
                end_date: opt_view(input.end_date),
                start_position: input.start_position,
            }),
            Err(e) => !code_input_ok(*input) && e matches BojError::ValidationError(_),
        },
{
    let mut query = CodeQuery::new(input.db.as_str(), clone_strings(&input.codes))?;
    if let Some(format) = input.format {
        query = query.with_format(format.to_format());
    }
    if let Some(lang) = input.lang {
        query = query.with_lang(lang.to_language());
    }
    if let Some(start_date) = &input.start_date {
        query = query.with_start_date(start_date.as_str())?;
    }
    if let Some(end_date) = &input.end_date {
        query = query.with_end_date(end_date.as_str())?;
    }
    if let Some(start_position) = input.start_position {
        query = query.with_start_position(start_position)?;
    }
    Ok(query)
}

/// The format a tool format parameter selects.
pub open spec fn frequency_free_format(p: FormatParam) -> Format {
    match p {
        FormatParam::Json => Format::Json,
        FormatParam::Csv => Format::Csv,
    }
}

/// The language a tool language parameter selects.
pub open spec fn language_of(p: LanguageParam) -> Language {
    match p {
        LanguageParam::Jp => Language::Jp,
        LanguageParam::En => Language::En,
    }
}

/// Copies a string list element by element.
fn clone_strings(v: &Vec<String>) -> (r: Vec<String>)
    ensures
        r.deep_view() == v.deep_view(),
{
    let mut r: Vec<String> = Vec::new();
    let n = v.len();
    for i in 0..n
        invariant
            n == v.len(),
            r.deep_view() == v.deep_view().take(i as int),
    {
        let ghost before = r.deep_view();
        r.push(v[i].clone());
        proof {
            assert(r.deep_view() =~= before.push(v@[i as int]@));
            assert(v.deep_view().take(i + 1) =~= v.deep_view().take(i as int).push(
                v.deep_view()[i as int],
            ));
        }
    }
    assert(v.deep_view().take(n as int) =~= v.deep_view());
    r
}

/// Whether a by-layer tool input passes every validation rule.
pub open spec fn layer_input_ok(input: GetDataLayerInput) -> bool {
    &&& valid_db(input.db@)
    &&& 1 <= input.layers@.len() <= 5
    &&& (forall|i: int|
        0 <= i < input.layers@.len() ==> layer_token_result(
            #[trigger] input.layers.deep_view()[i],
        ) is Some)
    &&& (input.start_date matches Some(d) ==> valid_date_for_frequency(
        d@,
        frequency_of_param(input.frequency),
    ))
    &&& (input.end_date matches Some(d) ==> valid_date_for_frequency(
        d@,
        frequency_of_param(input.frequency),
    ))
    &&& (match (input.start_date, input.end_date) {
        (Some(s), Some(e)) => valid_date_order(s@, e@),
        _ => true,
    })
    &&& (input.start_position matches Some(p) ==> p > 0)
}

/// Builds a validated by-layer query from a tool input; the first violated
/// rule fails the build.
pub fn build_layer_query(input: &GetDataLayerInput) -> (r: Result<LayerQuery, BojError>)
    ensures
        match r {
            Ok(q) => layer_input_ok(*input) && wf_layer_query(q@) && q@.db == upper_seq(
                input.db@,
            ) && q@.frequency == frequency_of_param(input.frequency) && q@.layers.len()
                == input.layers@.len() && (forall|i: int|
                0 <= i < input.layers@.len() ==> layer_token_result(
                    #[trigger] input.layers.deep_view()[i],
                ) == Some(q@.layers[i])) && q@.start_date == opt_view(input.start_date)
                && q@.end_date == opt_view(input.end_date) && q@.start_position
                == input.start_position && q@.format == (match input.format {
                Some(f) => Some(frequency_free_format(f)),
                None => None,
            }) && q@.lang == (match input.lang {
                Some(l) => Some(language_of(l)),
                None => None,
            }),
            Err(e) => !layer_input_ok(*input) && e matches BojError::ValidationError(_),
        },
{
    let layer_tokens = clone_strings(&input.layers);
    let ghost lt = layer_tokens.deep_view();
    assert(lt == input.layers.deep_view());
    assert(input.layers.deep_view().len() == input.layers@.len());
    let mut query = LayerQuery::new(
        input.db.as_str(),
        input.frequency.to_frequency(),
        layer_tokens,
    )?;
    assert(1 <= input.layers@.len() <= 5);
    assert(forall|i: int|
        0 <= i < input.layers@.len() ==> layer_token_result(
            #[trigger] input.layers.deep_view()[i],
        ) is Some) by {
        assert(forall|i: int|
            0 <= i < lt.len() ==> layer_token_result(#[trigger] lt[i]) == Some(
                query@.layers[i],
            ));
    }
    if let Some(format) = input.format {
        query = query.with_format(format.to_format());
    }
    if let Some(lang) = input.lang {
        query = query.with_lang(lang.to_language());
    }
    if let Some(start_date) = &input.start_date {
        query = query.with_start_date(start_date.as_str())?;
    }
    if let Some(end_date) = &input.end_date {
        query = query.with_end_date(end_date.as_str())?;
    }
    if let Some(start_position) = input.start_position {
        query = query.with_start_position(start_position)?;
    }
    Ok(query)
}

/// Builds a validated metadata query from a tool input.
pub fn build_metadata_query(input: &GetMetadataInput) -> (r: Result<MetadataQuery, BojError>)
    ensures
        match r {
            Ok(q) => valid_db(input.db@) && wf_metadata_query(q@) && q@ == (MetadataQueryView {
                db: upper_seq(input.db@),
                format: match input.format {
                    Some(f) => Some(frequency_free_format(f)),
                    None => None,
                },
                lang: match input.lang {
                    Some(l) => Some(language_of(l)),
                    None => None,
                },
            }),
            Err(e) => !valid_db(input.db@) && e matches BojError::ValidationError(_),
        },
{
    let mut query = MetadataQuery::new(input.db.as_str())?;
    if let Some(format) = input.format {
        query = query.with_format(format.to_format());
    }
    if let Some(lang) = input.lang {
        query = query.with_lang(lang.to_language());
    }
    Ok(query)
}

/// Maps the response metadata to its tool output.
fn to_meta_output(meta: ResponseMeta) -> (r: MetaOutput)
    ensures
        r.status == meta.status,
        r.message_id@ == meta.message_id@,
        r.message@ == meta.message@,
        opt_view(r.date) == opt_view(meta.date),
{
    MetaOutput {
        status: meta.status,
        message_id: meta.message_id,
        message: meta.message,
        date: meta.date,
    }
}

/// Maps a decoded by-code response to its tool output: the series count is
/// the series-list length, and the raw text is kept exactly when requested.
pub fn to_code_output(response: CodeResponse, include_raw: bool) -> (r: CodeToolOutput)
    ensures
        r.meta.status == response.meta@.status,
        r.meta.message_id@ == response.meta@.message_id,
        r.parameter@ == response.parameter@,
        r.next_position == response.next_position,
        r.series_count == response.series@.len(),
        r.series.deep_view() == response.series.deep_view(),
        opt_view(r.raw) == (if include_raw {
            Some(response.raw@)
        } else {
            None::<Seq<char>>
        }),
{
    let series_count = response.series.len();
    CodeToolOutput {
        meta: to_meta_output(response.meta),
        parameter: response.parameter,
        next_position: response.next_position,
        series_count,
        series: response.series,
        raw: if include_raw {
            Some(response.raw)
        } else {
            None
        },
    }
}

/// Maps a decoded by-layer response to its tool output.
pub fn to_layer_output(response: LayerResponse, include_raw: bool) -> (r: LayerToolOutput)
    ensures
        r.meta.status == response.meta@.status,
        r.meta.message_id@ == response.meta@.message_id,
        r.parameter@ == response.parameter@,
        r.next_position == response.next_position,
        r.series_count == response.series@.len(),
        r.series.deep_view() == response.series.deep_view(),
        opt_view(r.raw) == (if include_raw {
            Some(response.raw@)
        } else {
            None::<Seq<char>>
        }),
{
    let series_count = response.series.len();
    LayerToolOutput {
        meta: to_meta_output(response.meta),
        parameter: response.parameter,
        next_position: response.next_position,
        series_count,
        series: response.series,
        raw: if include_raw {
            Some(response.raw)
        } else {
            None
        },
    }
}

/// Maps a decoded metadata response to its tool output.
pub fn to_metadata_output(response: MetadataResponse, include_raw: bool) -> (r:
    MetadataToolOutput)
    ensures
        r.meta.status == response.meta@.status,
        r.db@ == response.db@,
        r.entries_count == response.entries@.len(),
        r.entries.deep_view() == response.entries.deep_view(),
        opt_view(r.raw) == (if include_raw {
            Some(response.raw@)
        } else {
            None::<Seq<char>>
        }),
{
    let entries_count = response.entries.len();
    MetadataToolOutput {
        meta: to_meta_output(response.meta),
        db: response.db,
        entries_count,
        entries: response.entries,
        raw: if include_raw {
            Some(response.raw)
        } else {
            None
        },
    }
}

/// The scope name of an endpoint selector.
pub open spec fn endpoint_scope_text(endpoint: EndpointScopeParam) -> Seq<char> {
    match endpoint {
        EndpointScopeParam::All => "all"@,
        EndpointScopeParam::GetDataCode => "getDataCode"@,
        EndpointScopeParam::GetDataLayer => "getDataLayer"@,
        EndpointScopeParam::GetMetadata => "getMetadata"@,
    }
}

/// Returns the scope name of an endpoint selector.
pub fn endpoint_scope_name(endpoint: EndpointScopeParam) -> (r: &'static str)
    ensures
        r@ == endpoint_scope_text(endpoint),
{
    match endpoint {
        EndpointScopeParam::All => "all",
        EndpointScopeParam::GetDataCode => "getDataCode",
        EndpointScopeParam::GetDataLayer => "getDataLayer",
        EndpointScopeParam::GetMetadata => "getMetadata",
    }
}

/// Parses a scope name back to its endpoint selector.
pub fn parse_endpoint_scope(value: &str) -> (r: Option<EndpointScopeParam>)
    ensures
        match r {
            Some(s) => value@ == (match s {
                EndpointScopeParam::All => "all"@,
                EndpointScopeParam::GetDataCode => "get_data_code"@,
                EndpointScopeParam::GetDataLayer => "get_data_layer"@,
                EndpointScopeParam::GetMetadata => "get_metadata"@,
            }),
            None => value@ != "all"@ && value@ != "get_data_code"@ && value@
                != "get_data_layer"@ && value@ != "get_metadata"@,
        },
{
    if str_eq(value, "all") {
        Some(EndpointScopeParam::All)
    } else if str_eq(value, "get_data_code") {
        Some(EndpointScopeParam::GetDataCode)
    } else if str_eq(value, "get_data_layer") {
        Some(EndpointScopeParam::GetDataLayer)
    } else if str_eq(value, "get_metadata") {
        Some(EndpointScopeParam::GetMetadata)
    } else {
        None
    }
}

/// Whether a parameter row applies to the scope: for a single endpoint the
/// row must not be unsupported there; the all-scope keeps every row.
pub open spec fn parameter_in_scope(spec: ParameterSpec, endpoint: EndpointScopeParam) -> bool {
    match endpoint {
        EndpointScopeParam::All => true,
        EndpointScopeParam::GetDataCode => spec.code_api != EndpointRequirement::Unsupported,
        EndpointScopeParam::GetDataLayer => spec.layer_api != EndpointRequirement::Unsupported,
        EndpointScopeParam::GetMetadata => spec.metadata_api
            != EndpointRequirement::Unsupported,
    }
}

/// Whether a parameter row applies to the scope.
pub fn parameter_applies_to_scope(spec: &ParameterSpec, endpoint: EndpointScopeParam) -> (r:
    bool)
    ensures
        r == parameter_in_scope(*spec, endpoint),
{
    match endpoint {
        EndpointScopeParam::All => true,
        EndpointScopeParam::GetDataCode => !matches!(
            spec.code_api,
            EndpointRequirement::Unsupported
        ),
        EndpointScopeParam::GetDataLayer => !matches!(
            spec.layer_api,
            EndpointRequirement::Unsupported
        ),
        EndpointScopeParam::GetMetadata => !matches!(
            spec.metadata_api,
            EndpointRequirement::Unsupported
        ),
    }
}

/// Whether a comma-separated scope list names the endpoint; the all-scope
/// keeps every limit.
pub open spec fn limit_in_scope(api_scope: Seq<char>, endpoint: EndpointScopeParam) -> bool {
    match endpoint {
        EndpointScopeParam::All => true,
        EndpointScopeParam::GetDataCode => split_comma(api_scope).contains("getDataCode"@),
        EndpointScopeParam::GetDataLayer => split_comma(api_scope).contains("getDataLayer"@),
        EndpointScopeParam::GetMetadata => split_comma(api_scope).contains("getMetadata"@),
    }
}

/// Whether a comma-separated scope list names the endpoint.
pub fn limit_applies_to_scope(api_scope: &str, endpoint: EndpointScopeParam) -> (r: bool)
    ensures
        r == limit_in_scope(api_scope@, endpoint),
{
    match endpoint {
        EndpointScopeParam::All => true,
        EndpointScopeParam::GetDataCode => scope_list_contains(api_scope, "getDataCode"),
        EndpointScopeParam::GetDataLayer => scope_list_contains(api_scope, "getDataLayer"),
        EndpointScopeParam::GetMetadata => scope_list_contains(api_scope, "getMetadata"),
    }
}

/// Whether the comma-separated list holds the name as one of its parts.
fn scope_list_contains(s: &str, name: &str) -> (r: bool)
    ensures
        r == split_comma(s@).contains(name@),
{
    let parts = crate::text::split_comma_exec(s);
    let n = parts.len();
    for i in 0..n
        invariant
            n == parts.len(),
            parts.deep_view() == split_comma(s@),
            forall|j: int| 0 <= j < i ==> #[trigger] split_comma(s@)[j] != name@,
    {
        if str_eq(parts[i].as_str(), name) {
            assert(split_comma(s@)[i as int] == name@);
            return true;
        }
        assert(split_comma(s@)[i as int] != name@);
    }
    false
}

/// Keeps, in order, the values whose ASCII-lower-cased form starts with the
/// lower-cased prefix; an empty prefix keeps everything.
pub open spec fn spec_filter_by_prefix(values: Seq<Seq<char>>, prefix: Seq<char>) -> Seq<
    Seq<char>,
>
    decreases values.len(),
{
    if values.len() == 0 {
        Seq::empty()
    } else {
        let rest = spec_filter_by_prefix(values.drop_last(), prefix);
        if is_prefix(lower_seq(prefix), lower_seq(values[values.len() - 1])) {
            rest.push(values[values.len() - 1])
        } else {
            rest
        }
    }
}

/// Filters completion values by a case-insensitive prefix.
pub fn filter_by_prefix(values: Vec<String>, prefix: &str) -> (r: Vec<String>)
    ensures
        r.deep_view() == spec_filter_by_prefix(values.deep_view(), prefix@),
{
    let ghost vs = values.deep_view();
    let prefix_lower = lower_string(prefix);
    let mut r: Vec<String> = Vec::new();
    let n = values.len();
    assert(r.deep_view() =~= Seq::<Seq<char>>::empty());
    for i in 0..n
        invariant
            n == values.len(),
            vs == values.deep_view(),
            prefix_lower@ == lower_seq(prefix@),
            r.deep_view() == spec_filter_by_prefix(vs.take(i as int), prefix@),
    {
        proof {
            assert(vs.take(i + 1).drop_last() =~= vs.take(i as int));
            assert(vs.take(i + 1)[i as int] == vs[i as int]);
        }
        let value_lower = lower_string(values[i].as_str());
        if starts_with_str(value_lower.as_str(), prefix_lower.as_str()) {
            let ghost before = r.deep_view();
            r.push(values[i].clone());
            assert(r.deep_view() =~= before.push(vs[i as int]));
        }
    }
    assert(vs.take(n as int) =~= vs);
    r
}

/// Lists the databases known to the catalog.
pub fn to_list_databases_output() -> (r: ListDatabasesOutput)
    ensures
        r.count == r.databases@.len(),
        r.databases@.len() == 50,
{
    let entries = databases();
    let mut out: Vec<DatabaseCatalogEntryOutput> = Vec::new();
    let n = entries.len();
    for i in 0..n
        invariant
            n == entries.len(),
            out@.len() == i,
    {
        out.push(
            DatabaseCatalogEntryOutput {
                category_ja: entries[i].category_ja.clone(),
                code: entries[i].code.clone(),
                name_ja: entries[i].name_ja.clone(),
            },
        );
    }
    let count = out.len();
    ListDatabasesOutput {
        source_document: String::from_str("api_manual.pdf"),
        source_date: String::from_str("2026-02-18"),
        count,
        databases: out,
    }
}

/// The parameter rows that apply to a scope, as tool outputs with their
/// requirement texts.
fn filter_parameters(specs: &Vec<ParameterSpec>, endpoint: EndpointScopeParam) -> (r: Vec<
    ParameterCatalogEntryOutput,
>)
    ensures
        forall|i: int|
            0 <= i < r@.len() ==> (match endpoint {
                EndpointScopeParam::All => true,
                EndpointScopeParam::GetDataCode => (#[trigger] r@[i]).requirements.code_api@
                    != "unsupported"@,
                EndpointScopeParam::GetDataLayer => r@[i].requirements.layer_api@
                    != "unsupported"@,
                EndpointScopeParam::GetMetadata => r@[i].requirements.metadata_api@
                    != "unsupported"@,
            }),
{
    let mut r: Vec<ParameterCatalogEntryOutput> = Vec::new();
    let n = specs.len();
    for i in 0..n
        invariant
            n == specs.len(),
            forall|j: int|
                0 <= j < r@.len() ==> (match endpoint {
                    EndpointScopeParam::All => true,
                    EndpointScopeParam::GetDataCode => (
                    #[trigger] r@[j]).requirements.code_api@ != "unsupported"@,
                    EndpointScopeParam::GetDataLayer => r@[j].requirements.layer_api@
                        != "unsupported"@,
                    EndpointScopeParam::GetMetadata => r@[j].requirements.metadata_api@
                        != "unsupported"@,
                }),
    {
        if parameter_applies_to_scope(&specs[i], endpoint) {
            let ghost before = r@;
            r.push(
                ParameterCatalogEntryOutput {
                    name: specs[i].name.clone(),
                    description_ja: specs[i].description_ja.clone(),
                    allowed_values: specs[i].allowed_values.clone(),
                    requirements: RequirementMatrixOutput {
                        code_api: String::from_str(specs[i].code_api.as_str()),
                        layer_api: String::from_str(specs[i].layer_api.as_str()),
                        metadata_api: String::from_str(specs[i].metadata_api.as_str()),
                    },
                    notes: clone_strings(&specs[i].notes),
                },
            );
            proof {
                reveal_strlit("required");
                reveal_strlit("optional");
                reveal_strlit("unsupported");
                assert(forall|j: int| 0 <= j < before.len() ==> #[trigger] r@[j] == before[j]);
                let last = r@[r@.len() - 1];
                assert(last.requirements.code_api@ == requirement_text(
                    specs@[i as int].code_api,
                ));
                assert(last.requirements.layer_api@ == requirement_text(
                    specs@[i as int].layer_api,
                ));
                assert(last.requirements.metadata_api@ == requirement_text(
                    specs@[i as int].metadata_api,
                ));
                assert(("required"@).len() == 8);
                assert(("optional"@).len() == 8);
                assert(("unsupported"@).len() == 11);
                assert(requirement_text(EndpointRequirement::Required) != "unsupported"@);
                assert(requirement_text(EndpointRequirement::Optional) != "unsupported"@) by {
                    assert(("optional"@)[0] != ("unsupported"@)[0]);
                }
            }
        }
    }
    r
}

/// The request limits that apply to a scope: every kept limit names the
/// scope, and the all-scope keeps every limit.
fn filter_limits(limits: &Vec<RequestLimit>, endpoint: EndpointScopeParam) -> (r: Vec<
    RequestLimitOutput,
>)
    ensures
        forall|i: int|
            0 <= i < r@.len() ==> limit_in_scope((#[trigger] r@[i]).api_scope@, endpoint),
        endpoint == EndpointScopeParam::All ==> r@.len() == limits@.len(),
{
    let mut r: Vec<RequestLimitOutput> = Vec::new();
    let n = limits.len();
    for i in 0..n
        invariant
            n == limits.len(),
            forall|j: int|
                0 <= j < r@.len() ==> limit_in_scope((#[trigger] r@[j]).api_scope@, endpoint),
            endpoint == EndpointScopeParam::All ==> r@.len() == i,
    {
        if limit_applies_to_scope(limits[i].api_scope.as_str(), endpoint) {
            r.push(
                RequestLimitOutput {
                    api_scope: limits[i].api_scope.clone(),
                    target: limits[i].target.clone(),
                    max_value: limits[i].max_value,
                    overflow_behavior: limits[i].overflow_behavior.clone(),
                },
            );
        }
    }
    r
}

/// Builds the parameter-catalog output for one endpoint scope: the filtered
/// parameter matrix and limits, and — only for scopes that take a frequency
/// and layers — the frequency codes and layer rules.
pub fn to_parameter_catalog_output(endpoint: EndpointScopeParam) -> (r: ParameterCatalogOutput)
    ensures
        r.endpoint_scope@ == endpoint_scope_text(endpoint),
        (endpoint == EndpointScopeParam::All || endpoint == EndpointScopeParam::GetDataLayer)
            ==> r.frequency_codes@.len() == 8 && r.layer_rules@.len() == 4,
        (endpoint == EndpointScopeParam::GetDataCode || endpoint
            == EndpointScopeParam::GetMetadata) ==> r.frequency_codes@.len() == 0
            && r.layer_rules@.len() == 0,
        forall|i: int|
            0 <= i < r.parameters@.len() ==> (match endpoint {
                EndpointScopeParam::All => true,
                EndpointScopeParam::GetDataCode => (
                #[trigger] r.parameters@[i]).requirements.code_api@ != "unsupported"@,
                EndpointScopeParam::GetDataLayer => r.parameters@[i].requirements.layer_api@
                    != "unsupported"@,
                EndpointScopeParam::GetMetadata => r.parameters@[
                    i
                ].requirements.metadata_api@ != "unsupported"@,
            }),
{
    let specs = parameter_specs();
    let parameters = filter_parameters(&specs, endpoint);
    let limits_in = request_limits();
    let limits = filter_limits(&limits_in, endpoint);
    let frequency_codes = match endpoint {
        EndpointScopeParam::All | EndpointScopeParam::GetDataLayer => frequency_codes(),
        _ => Vec::new(),
    };
    let layer_rules = match endpoint {
        EndpointScopeParam::All | EndpointScopeParam::GetDataLayer => layer_rules(),
        _ => Vec::new(),
    };
    let mut mcp_format_codes: Vec<String> = Vec::new();
    mcp_format_codes.push(String::from_str("json"));
    mcp_format_codes.push(String::from_str("csv"));
    let mut mcp_language_codes: Vec<String> = Vec::new();
    mcp_language_codes.push(String::from_str("jp"));
    mcp_language_codes.push(String::from_str("en"));
    ParameterCatalogOutput {
        source_document: String::from_str("api_manual.pdf"),
        source_date: String::from_str("2026-02-18"),
        endpoint_scope: String::from_str(endpoint_scope_name(endpoint)),
        general_notes: general_notes(),
        format_codes: format_codes(),
        language_codes: language_codes(),
        mcp_format_codes,
        mcp_language_codes,
        frequency_codes,
        parameters,
        limits,
        layer_rules,
    }
}

/// The message rows kept by a status filter.
fn filter_messages(messages: &Vec<MessageCodeSpec>, status_filter: Option<u16>) -> (r: Vec<
    MessageCatalogEntryOutput,
>)
    ensures
        (status_filter matches Some(s) ==> forall|i: int|
            0 <= i < r@.len() ==> (#[trigger] r@[i]).status == s),
        status_filter is None ==> r@.len() == messages@.len(),
{
    let mut r: Vec<MessageCatalogEntryOutput> = Vec::new();
    let n = messages.len();
    for i in 0..n
        invariant
            n == messages.len(),
            (status_filter matches Some(s) ==> forall|j: int|
                0 <= j < r@.len() ==> (#[trigger] r@[j]).status == s),
            status_filter is None ==> r@.len() == i,
    {
        let keep = match status_filter {
            None => true,
            Some(s) => messages[i].status == s,
        };
        if keep {
            r.push(
                MessageCatalogEntryOutput {
                    status: messages[i].status,
                    message_id: messages[i].message_id.clone(),
                    message: messages[i].message.clone(),
                    note: messages[i].note.clone(),
                },
            );
        }
    }
    r
}

/// Builds the message-catalog output, optionally filtered to one status:
/// when a filter is set every listed row carries that status; without one
/// every known row is listed.
pub fn to_message_catalog_output(status_filter: Option<u16>) -> (r: MessageCatalogOutput)
    ensures
        r.status_filter == status_filter,
        r.count == r.messages@.len(),
        (status_filter matches Some(s) ==> forall|i: int|
            0 <= i < r.messages@.len() ==> (#[trigger] r.messages@[i]).status == s),
        status_filter is None ==> r.messages@.len() == 24,
{
    let all = message_codes();
    let messages = filter_messages(&all, status_filter);
    let count = messages.len();
    MessageCatalogOutput {
        source_document: String::from_str("api_manual.pdf"),
        source_date: String::from_str("2026-02-18"),
        status_filter,
        count,
        messages,
    }
}

/// Pushes one literal completion value.
fn push_value(v: &mut Vec<String>, value: &str)
    ensures
        final(v).deep_view() == old(v).deep_view().push(value@),
{
    let ghost before = v.deep_view();
    v.push(String::from_str(value));
    assert(v.deep_view() =~= before.push(value@));
}

/// Whether a status value appears in the catalog's status/message table.
pub open spec fn status_from_catalog(x: u16) -> bool {
    exists|j: int|
        0 <= j < 24 && x == #[trigger] crate::catalog::catalog_message_statuses()[j]
}

/// Whether a text is the decimal rendering of a catalog status.
pub open spec fn status_text_from_catalog(t: Seq<char>) -> bool {
    exists|j: int|
        0 <= j < 24 && t == crate::text::dec_str(
            #[trigger] crate::catalog::catalog_message_statuses()[j] as nat,
        )
}

/// Completion values for one prompt argument: the catalog's database codes,
/// the fixed format/language/endpoint token lists, the frequency codes, or
/// the decimal texts of the catalog's status values, in ascending order
/// without repeats; an unknown argument has no completions.
pub fn completion_values(argument_name: &str) -> (r: Vec<String>)
    ensures
        argument_name@ == "db"@ ==> r.deep_view().len() == 50 && (forall|i: int|
            0 <= i < 50 ==> #[trigger] r.deep_view()[i]
                == crate::catalog::catalog_db_codes()[i]),
        argument_name@ == "format"@ ==> r.deep_view() == seq!["json"@, "csv"@],
        argument_name@ == "lang"@ ==> r.deep_view() == seq!["jp"@, "en"@],
        argument_name@ == "endpoint"@ ==> r.deep_view() == seq![
            "all"@,
            "get_data_code"@,
            "get_data_layer"@,
            "get_metadata"@,
        ],
        argument_name@ == "frequency"@ ==> r.deep_view().len() == 8,
        argument_name@ == "status"@ ==> (forall|i: int|
            0 <= i < r.deep_view().len() ==> status_text_from_catalog(
                #[trigger] r.deep_view()[i],
            )),
{
    proof {
        reveal_strlit("db");
        reveal_strlit("format");
        reveal_strlit("lang");
        reveal_strlit("endpoint");
        reveal_strlit("frequency");
        reveal_strlit("status");
        assert(("db"@).len() == 2);
        assert(("format"@).len() == 6);
        assert(("lang"@).len() == 4);
        assert(("endpoint"@).len() == 8);
        assert(("frequency"@).len() == 9);
        assert(("status"@).len() == 6);
        assert(("format"@)[0] != ("status"@)[0]);
    }
    if str_eq(argument_name, "db") {
        let entries = databases();
        let mut r: Vec<String> = Vec::new();
        let n = entries.len();
        for i in 0..n
            invariant
                n == entries.len(),
                entries@.len() == 50,
                forall|k: int|
                    0 <= k < 50 ==> (#[trigger] entries@[k]).code@
                        == crate::catalog::catalog_db_codes()[k],
                r.deep_view().len() == i,
                forall|k: int|
                    0 <= k < i ==> #[trigger] r.deep_view()[k]
                        == crate::catalog::catalog_db_codes()[k],
        {
            let ghost before = r.deep_view();
            r.push(entries[i].code.clone());
            assert(r.deep_view() =~= before.push(entries@[i as int].code@));
        }
        r
    } else if str_eq(argument_name, "format") {
        let mut r: Vec<String> = Vec::new();
        push_value(&mut r, "json");
        push_value(&mut r, "csv");
        assert(r.deep_view() =~= seq!["json"@, "csv"@]);
        r
    } else if str_eq(argument_name, "lang") {
        let mut r: Vec<String> = Vec::new();
        push_value(&mut r, "jp");
        push_value(&mut r, "en");
        assert(r.deep_view() =~= seq!["jp"@, "en"@]);
        r
    } else if str_eq(argument_name, "endpoint") {
        let mut r: Vec<String> = Vec::new();
        push_value(&mut r, "all");
        push_value(&mut r, "get_data_code");
        push_value(&mut r, "get_data_layer");
        push_value(&mut r, "get_metadata");
        assert(r.deep_view() =~= seq![
            "all"@,
            "get_data_code"@,
            "get_data_layer"@,
            "get_metadata"@,
        ]);
        r
    } else if str_eq(argument_name, "frequency") {
        frequency_codes()
    } else if str_eq(argument_name, "status") {
        let messages = message_codes();
        let mut statuses: Vec<u16> = Vec::new();
        let n = messages.len();
        for i in 0..n
            invariant
                n == messages.len(),
                messages@.len() == 24,
                forall|k: int|
                    0 <= k < 24 ==> (#[trigger] messages@[k]).status
                        == crate::catalog::catalog_message_statuses()[k],
                forall|k: int|
                    0 <= k < statuses@.len() ==> status_from_catalog(#[trigger] statuses@[k]),
        {
            let ghost prev = statuses@;
            let st = messages[i].status;
            insert_sorted_unique(&mut statuses, st);
            proof {
                assert(st == crate::catalog::catalog_message_statuses()[i as int]);
                assert forall|k: int|
                    0 <= k < statuses@.len() implies status_from_catalog(
                    #[trigger] statuses@[k],
                ) by {
                    if statuses@[k] == st {
                        assert(statuses@[k]
                            == crate::catalog::catalog_message_statuses()[i as int]);
                    } else {
                        assert(prev.contains(statuses@[k]));
                        let x = choose|x: int|
                            0 <= x < prev.len() && prev[x] == statuses@[k];
                        assert(status_from_catalog(prev[x]));
                    }
                }
            }
        }
        let m = statuses.len();
        let mut r: Vec<String> = Vec::new();
        assert(argument_name@ == "status"@);
        for i in 0..m
            invariant
                m == statuses.len(),
                forall|k: int|
                    0 <= k < statuses@.len() ==> status_from_catalog(#[trigger] statuses@[k]),
                r.deep_view().len() == i,
                forall|k: int|
                    0 <= k < i ==> status_text_from_catalog(#[trigger] r.deep_view()[k]),
        {
            let ghost before = r.deep_view();
            let text = crate::text::u32_string(statuses[i] as u32);
            r.push(text);
            proof {
                assert(r.deep_view() =~= before.push(
                    crate::text::dec_str(statuses@[i as int] as nat),
                ));
                assert(status_from_catalog(statuses@[i as int]));
                let j = choose|j: int|
                    0 <= j < 24 && statuses@[i as int]
                        == #[trigger] crate::catalog::catalog_message_statuses()[j];
                assert(status_text_from_catalog(r.deep_view()[i as int])) by {
                    assert(r.deep_view()[i as int] == crate::text::dec_str(
                        crate::catalog::catalog_message_statuses()[j] as nat,
                    ));
                }
            }
        }
        r
    } else {
        Vec::new()
    }
}

/// Inserts a value into an ascending list, keeping it ascending and without
/// repeats; every element afterwards is the new value or an old element.
fn insert_sorted_unique(v: &mut Vec<u16>, value: u16)
    ensures
        forall|k: int|
            0 <= k < final(v)@.len() ==> #[trigger] final(v)@[k] == value || old(
                v,
            )@.contains(final(v)@[k]),
        final(v)@.contains(value),
{
    let ghost before = v@;
    let n = v.len();
    for i in 0..n
        invariant
            n == v.len(),
            v@ == before,
            before == old(v)@,
            forall|k: int| 0 <= k < i ==> #[trigger] v@[k] != value,
    {
        if v[i] == value {
            proof {
                assert(v@.contains(value)) by {
                    assert(v@[i as int] == value);
                }
                assert forall|k: int|
                    0 <= k < v@.len() implies #[trigger] v@[k] == value || before.contains(
                    v@[k],
                ) by {
                    assert(before[k] == v@[k]);
                }
            }
            return ;
        }
        if v[i] > value {
            v.insert(i, value);
            proof {
                assert(v@[i as int] == value);
                assert forall|k: int|
                    0 <= k < v@.len() implies #[trigger] v@[k] == value || before.contains(
                    v@[k],
                ) by {
                    if k < i {
                        assert(v@[k] == before[k]);
                        assert(before.contains(before[k]));
                    } else if k > i {
                        assert(v@[k] == before[k - 1]);
                        assert(before.contains(before[k - 1]));
                    }
                }
            }
            return ;
        }
    }
    v.push(value);
    proof {
        assert(v@[v@.len() - 1] == value);
        assert forall|k: int|
            0 <= k < v@.len() implies #[trigger] v@[k] == value || before.contains(v@[k]) by {
            if k < v@.len() - 1 {
                assert(v@[k] == before[k]);
                assert(before.contains(before[k]));
            }
        }
    }
}

} // verus!
