//! Canonical response model: both wire formats decode into these types.
//!
//! Each type has a ghost view over `Seq<char>` so that decoder contracts can
//! state exactly which value a payload decodes to. Forward-compatibility
//! `extras` maps are association lists with unique keys, kept in the order
//! the source reported them.

use vstd::prelude::*;

verus! {

/// Shared response metadata returned by every endpoint. `status` is the
/// authoritative success signal; only `200` is success.
#[derive(Debug, Clone, PartialEq, Eq)]
pub struct ResponseMeta {
    /// Server status code (`200`, `400`, `500`, `503`, ...).
    pub status: u16,
    /// Server message identifier.
    pub message_id: String,
    /// Human-readable server message.
    pub message: String,
    /// Response date value, when available.
    pub date: Option<String>,
}

/// Ghost view of [`ResponseMeta`].
pub ghost struct ResponseMetaView {
    /// Server status code.
    pub status: u16,
    /// Server message identifier.
    pub message_id: Seq<char>,
    /// Human-readable server message.
    pub message: Seq<char>,
    /// Response date value, when available.
    pub date: Option<Seq<char>>,
}

impl View for ResponseMeta {
    type V = ResponseMetaView;

    open spec fn view(&self) -> ResponseMetaView {
        ResponseMetaView {
            status: self.status,
            message_id: self.message_id@,
            message: self.message@,
            date: match self.date {
                Some(d) => Some(d@),
                None => None,
            },
        }
    }
}

/// A single observation in a time series. `value` is `None` when the source
/// explicitly marks the observation missing, never an empty string.
#[derive(Debug, Clone, PartialEq, Eq)]
pub struct DataPoint {
    /// Survey date key, always non-blank.
    pub survey_date: String,
    /// Observed value at `survey_date`, when present.
    pub value: Option<String>,
}

/// Ghost view of [`DataPoint`].
pub ghost struct DataPointView {
    /// Survey date key.
    pub survey_date: Seq<char>,
    /// Observed value, when present.
    pub value: Option<Seq<char>>,
}

impl View for DataPoint {
    type V = DataPointView;

    open spec fn view(&self) -> DataPointView {
        DataPointView {
            survey_date: self.survey_date@,
            value: match self.value {
                Some(v) => Some(v@),
                None => None,
            },
        }
    }
}

/// Echoed request parameters for a by-code response; every field is optional
/// because the server may omit any of them. Unrecognized echoes are kept in
/// `extras`.
#[derive(Debug, Clone, PartialEq, Eq)]
pub struct CodeParameterEcho {
    /// Echoed `format` parameter, when present.
    pub format: Option<String>,
    /// Echoed `lang` parameter, when present.
    pub lang: Option<String>,
    /// Echoed `db` parameter, when present.
    pub db: Option<String>,
    /// Echoed `startDate` parameter, when present.
    pub start_date: Option<String>,
    /// Echoed `endDate` parameter, when present.
    pub end_date: Option<String>,
    /// Echoed `startPosition` parameter, when present.
    pub start_position: Option<u32>,
    /// Parameter echoes not normalized into dedicated fields.
    pub extras: Vec<(String, String)>,
}

/// Ghost view of [`CodeParameterEcho`].
pub ghost struct CodeParameterEchoView {
    /// Echoed `format` parameter, when present.
    pub format: Option<Seq<char>>,
    /// Echoed `lang` parameter, when present.
    pub lang: Option<Seq<char>>,
    /// Echoed `db` parameter, when present.
    pub db: Option<Seq<char>>,
    /// Echoed `startDate` parameter, when present.
    pub start_date: Option<Seq<char>>,
    /// Echoed `endDate` parameter, when present.
    pub end_date: Option<Seq<char>>,
    /// Echoed `startPosition` parameter, when present.
    pub start_position: Option<u32>,
    /// Parameter echoes not normalized into dedicated fields.
    pub extras: Seq<(Seq<char>, Seq<char>)>,
}

impl View for CodeParameterEcho {
    type V = CodeParameterEchoView;

    open spec fn view(&self) -> CodeParameterEchoView {
        CodeParameterEchoView {
            format: opt_view(self.format),
            lang: opt_view(self.lang),
            db: opt_view(self.db),
            start_date: opt_view(self.start_date),
            end_date: opt_view(self.end_date),
            start_position: self.start_position,
            extras: self.extras.deep_view(),
        }
    }
}

/// View of an optional string.
pub open spec fn opt_view(v: Option<String>) -> Option<Seq<char>> {
    match v {
        Some(s) => Some(s@),
        None => None,
    }
}

/// Echoed request parameters for a by-layer response.
#[derive(Debug, Clone, PartialEq, Eq)]
pub struct LayerParameterEcho {
    /// Echoed `format` parameter, when present.
    pub format: Option<String>,
    /// Echoed `lang` parameter, when present.
    pub lang: Option<String>,
    /// Echoed `db` parameter, when present.
    pub db: Option<String>,
    /// Echoed `frequency` parameter, when present.
    pub frequency: Option<String>,
    /// Echoed first layer index, when present.
    pub layer1: Option<u32>,
    /// Echoed second layer index, when present.
    pub layer2: Option<u32>,
    /// Echoed third layer index, when present.
    pub layer3: Option<u32>,
    /// Echoed fourth layer index, when present.
    pub layer4: Option<u32>,
    /// Echoed fifth layer index, when present.
    pub layer5: Option<u32>,
    /// Echoed `startDate` parameter, when present.
    pub start_date: Option<String>,
    /// Echoed `endDate` parameter, when present.
    pub end_date: Option<String>,
    /// Echoed `startPosition` parameter, when present.
    pub start_position: Option<u32>,
    /// Parameter echoes not normalized into dedicated fields.
    pub extras: Vec<(String, String)>,
}

/// Ghost view of [`LayerParameterEcho`].
pub ghost struct LayerParameterEchoView {
    /// Echoed `format` parameter, when present.
    pub format: Option<Seq<char>>,
    /// Echoed `lang` parameter, when present.
    pub lang: Option<Seq<char>>,
    /// Echoed `db` parameter, when present.
    pub db: Option<Seq<char>>,
    /// Echoed `frequency` parameter, when present.
    pub frequency: Option<Seq<char>>,
    /// Echoed first layer index, when present.
    pub layer1: Option<u32>,
    /// Echoed second layer index, when present.
    pub layer2: Option<u32>,
    /// Echoed third layer index, when present.
    pub layer3: Option<u32>,
    /// Echoed fourth layer index, when present.
    pub layer4: Option<u32>,
    /// Echoed fifth layer index, when present.
    pub layer5: Option<u32>,
    /// Echoed `startDate` parameter, when present.
    pub start_date: Option<Seq<char>>,
    /// Echoed `endDate` parameter, when present.
    pub end_date: Option<Seq<char>>,
    /// Echoed `startPosition` parameter, when present.
    pub start_position: Option<u32>,
    /// Parameter echoes not normalized into dedicated fields.
    pub extras: Seq<(Seq<char>, Seq<char>)>,
}

impl View for LayerParameterEcho {
    type V = LayerParameterEchoView;

    open spec fn view(&self) -> LayerParameterEchoView {
        LayerParameterEchoView {
            format: opt_view(self.format),
            lang: opt_view(self.lang),
            db: opt_view(self.db),
            frequency: opt_view(self.frequency),
            layer1: self.layer1,
            layer2: self.layer2,
            layer3: self.layer3,
            layer4: self.layer4,
            layer5: self.layer5,
            start_date: opt_view(self.start_date),
            end_date: opt_view(self.end_date),
            start_position: self.start_position,
            extras: self.extras.deep_view(),
        }
    }
}

/// One time series from a by-code response. `series_code` is never empty:
/// its absence is a decode error, not a valid series.
#[derive(Debug, Clone, PartialEq, Eq)]
pub struct CodeSeries {
    /// Time-series code.
    pub series_code: String,
    /// Japanese series name, when available.
    pub name_of_time_series_j: Option<String>,
    /// English series name, when available.
    pub name_of_time_series: Option<String>,
    /// Japanese unit label, when available.
    pub unit_j: Option<String>,
    /// English unit label, when available.
    pub unit: Option<String>,
    /// Frequency label, when available.
    pub frequency: Option<String>,
    /// Japanese category label, when available.
    pub category_j: Option<String>,
    /// English category label, when available.
    pub category: Option<String>,
    /// Last-update text, when available.
    pub last_update: Option<String>,
    /// Observations in the order the source reported them.
    pub points: Vec<DataPoint>,
    /// Series fields not normalized into dedicated fields.
    pub extras: Vec<(String, Option<String>)>,
}

/// Ghost view of [`CodeSeries`] and [`LayerSeries`].
pub ghost struct SeriesView {
    /// Time-series code.
    pub series_code: Seq<char>,
    /// Japanese series name, when available.
    pub name_of_time_series_j: Option<Seq<char>>,
    /// English series name, when available.
    pub name_of_time_series: Option<Seq<char>>,
    /// Japanese unit label, when available.
    pub unit_j: Option<Seq<char>>,
    /// English unit label, when available.
    pub unit: Option<Seq<char>>,
    /// Frequency label, when available.
    pub frequency: Option<Seq<char>>,
    /// Japanese category label, when available.
    pub category_j: Option<Seq<char>>,
    /// English category label, when available.
    pub category: Option<Seq<char>>,
    /// Last-update text, when available.
    pub last_update: Option<Seq<char>>,
    /// Observations in source order.
    pub points: Seq<DataPointView>,
    /// Series fields not normalized into dedicated fields.
    pub extras: Seq<(Seq<char>, Option<Seq<char>>)>,
}

impl View for CodeSeries {
    type V = SeriesView;

    open spec fn view(&self) -> SeriesView {
        SeriesView {
            series_code: self.series_code@,
            name_of_time_series_j: opt_view(self.name_of_time_series_j),
            name_of_time_series: opt_view(self.name_of_time_series),
            unit_j: opt_view(self.unit_j),
            unit: opt_view(self.unit),
            frequency: opt_view(self.frequency),
            category_j: opt_view(self.category_j),
            category: opt_view(self.category),
            last_update: opt_view(self.last_update),
            points: self.points.deep_view(),
            extras: self.extras.deep_view(),
        }
    }
}

impl DeepView for DataPoint {
    type V = DataPointView;

    open spec fn deep_view(&self) -> DataPointView {
        self.view()
    }
}

/// One time series from a by-layer response; same shape as [`CodeSeries`].
#[derive(Debug, Clone, PartialEq, Eq)]
pub struct LayerSeries {
    /// Time-series code.
    pub series_code: String,
    /// Japanese series name, when available.
    pub name_of_time_series_j: Option<String>,
    /// English series name, when available.
    pub name_of_time_series: Option<String>,
    /// Japanese unit label, when available.
    pub unit_j: Option<String>,
    /// English unit label, when available.
    pub unit: Option<String>,
    /// Frequency label, when available.
    pub frequency: Option<String>,
    /// Japanese category label, when available.
    pub category_j: Option<String>,
    /// English category label, when available.
    pub category: Option<String>,
    /// Last-update text, when available.
    pub last_update: Option<String>,
    /// Observations in the order the source reported them.
    pub points: Vec<DataPoint>,
    /// Series fields not normalized into dedicated fields.
    pub extras: Vec<(String, Option<String>)>,
}

impl View for LayerSeries {
    type V = SeriesView;

    open spec fn view(&self) -> SeriesView {
        SeriesView {
            series_code: self.series_code@,
            name_of_time_series_j: opt_view(self.name_of_time_series_j),
            name_of_time_series: opt_view(self.name_of_time_series),
            unit_j: opt_view(self.unit_j),
            unit: opt_view(self.unit),
            frequency: opt_view(self.frequency),
            category_j: opt_view(self.category_j),
            category: opt_view(self.category),
            last_update: opt_view(self.last_update),
            points: self.points.deep_view(),
            extras: self.extras.deep_view(),
        }
    }
}

/// One descriptive metadata entry; every field is optional.
#[derive(Debug, Clone, PartialEq, Eq)]
pub struct MetadataEntry {
    /// Time-series code, when present.
    pub series_code: Option<String>,
    /// Japanese series name, when available.
    pub name_of_time_series_j: Option<String>,
    /// English series name, when available.
    pub name_of_time_series: Option<String>,
    /// Japanese unit label, when available.
    pub unit_j: Option<String>,
    /// English unit label, when available.
    pub unit: Option<String>,
    /// Frequency label, when available.
    pub frequency: Option<String>,
    /// Japanese category label, when available.
    pub category_j: Option<String>,
    /// English category label, when available.
    pub category: Option<String>,
    /// First layer index, when present.
    pub layer1: Option<u32>,
    /// Second layer index, when present.
    pub layer2: Option<u32>,
    /// Third layer index, when present.
    pub layer3: Option<u32>,
    /// Fourth layer index, when present.
    pub layer4: Option<u32>,
    /// Fifth layer index, when present.
    pub layer5: Option<u32>,
    /// Start-of-series marker, when present.
    pub start_of_the_time_series: Option<String>,
    /// End-of-series marker, when present.
    pub end_of_the_time_series: Option<String>,
    /// Last-update text, when available.
    pub last_update: Option<String>,
    /// Japanese notes, when available.
    pub notes_j: Option<String>,
    /// English notes, when available.
    pub notes: Option<String>,
    /// Metadata fields not normalized into dedicated fields.
    pub extras: Vec<(String, Option<String>)>,
}

/// Ghost view of [`MetadataEntry`].
pub ghost struct MetadataEntryView {
    /// Time-series code, when present.
    pub series_code: Option<Seq<char>>,
    /// Japanese series name, when available.
    pub name_of_time_series_j: Option<Seq<char>>,
    /// English series name, when available.
    pub name_of_time_series: Option<Seq<char>>,
    /// Japanese unit label, when available.
    pub unit_j: Option<Seq<char>>,
    /// English unit label, when available.
    pub unit: Option<Seq<char>>,
    /// Frequency label, when available.
    pub frequency: Option<Seq<char>>,
    /// Japanese category label, when available.
    pub category_j: Option<Seq<char>>,
    /// English category label, when available.
    pub category: Option<Seq<char>>,
    /// First layer index, when present.
    pub layer1: Option<u32>,
    /// Second layer index, when present.
    pub layer2: Option<u32>,
    /// Third layer index, when present.
    pub layer3: Option<u32>,
    /// Fourth layer index, when present.
    pub layer4: Option<u32>,
    /// Fifth layer index, when present.
    pub layer5: Option<u32>,
    /// Start-of-series marker, when present.
    pub start_of_the_time_series: Option<Seq<char>>,
    /// End-of-series marker, when present.
    pub end_of_the_time_series: Option<Seq<char>>,
    /// Last-update text, when available.
    pub last_update: Option<Seq<char>>,
    /// Japanese notes, when available.
    pub notes_j: Option<Seq<char>>,
    /// English notes, when available.
    pub notes: Option<Seq<char>>,
    /// Metadata fields not normalized into dedicated fields.
    pub extras: Seq<(Seq<char>, Option<Seq<char>>)>,
}

impl View for MetadataEntry {
    type V = MetadataEntryView;

    open spec fn view(&self) -> MetadataEntryView {
        MetadataEntryView {
            series_code: opt_view(self.series_code),
            name_of_time_series_j: opt_view(self.name_of_time_series_j),
            name_of_time_series: opt_view(self.name_of_time_series),
            unit_j: opt_view(self.unit_j),
            unit: opt_view(self.unit),
            frequency: opt_view(self.frequency),
            category_j: opt_view(self.category_j),
            category: opt_view(self.category),
            layer1: self.layer1,
            layer2: self.layer2,
            layer3: self.layer3,
            layer4: self.layer4,
            layer5: self.layer5,
            start_of_the_time_series: opt_view(self.start_of_the_time_series),
            end_of_the_time_series: opt_view(self.end_of_the_time_series),
            last_update: opt_view(self.last_update),
            notes_j: opt_view(self.notes_j),
            notes: opt_view(self.notes),
            extras: self.extras.deep_view(),
        }
    }
}

impl DeepView for CodeSeries {
    type V = SeriesView;

    open spec fn deep_view(&self) -> SeriesView {
        self.view()
    }
}

impl DeepView for LayerSeries {
    type V = SeriesView;

    open spec fn deep_view(&self) -> SeriesView {
        self.view()
    }
}

impl DeepView for MetadataEntry {
    type V = MetadataEntryView;

    open spec fn deep_view(&self) -> MetadataEntryView {
        self.view()
    }
}

/// Decoded by-code response envelope: constructed once by a decoder from one
/// payload, immutable afterwards.
#[derive(Debug, Clone, PartialEq, Eq)]
pub struct CodeResponse {
    /// Response metadata.
    pub meta: ResponseMeta,
    /// Echoed request parameters.
    pub parameter: CodeParameterEcho,
    /// Pagination cursor for subsequent calls, when available.
    pub next_position: Option<u32>,
    /// Returned series entries.
    pub series: Vec<CodeSeries>,
    /// Raw decoded text, kept for diagnostics and never reparsed.
    pub raw: String,
}

/// Ghost view of [`CodeResponse`].
pub ghost struct CodeResponseView {
    /// Response metadata.
    pub meta: ResponseMetaView,
    /// Echoed request parameters.
    pub parameter: CodeParameterEchoView,
    /// Pagination cursor, when available.
    pub next_position: Option<u32>,
    /// Returned series entries.
    pub series: Seq<SeriesView>,
    /// Raw decoded text.
    pub raw: Seq<char>,
}

impl View for CodeResponse {
    type V = CodeResponseView;

    open spec fn view(&self) -> CodeResponseView {
        CodeResponseView {
            meta: self.meta@,
            parameter: self.parameter@,
            next_position: self.next_position,
            series: self.series.deep_view(),
            raw: self.raw@,
        }
    }
}

/// Decoded by-layer response envelope.
#[derive(Debug, Clone, PartialEq, Eq)]
pub struct LayerResponse {
    /// Response metadata.
    pub meta: ResponseMeta,
    /// Echoed request parameters.
    pub parameter: LayerParameterEcho,
    /// Pagination cursor for subsequent calls, when available.
    pub next_position: Option<u32>,
    /// Returned series entries.
    pub series: Vec<LayerSeries>,
    /// Raw decoded text, kept for diagnostics and never reparsed.
    pub raw: String,
}

/// Ghost view of [`LayerResponse`].
pub ghost struct LayerResponseView {
    /// Response metadata.
    pub meta: ResponseMetaView,
    /// Echoed request parameters.
    pub parameter: LayerParameterEchoView,
    /// Pagination cursor, when available.
    pub next_position: Option<u32>,
    /// Returned series entries.
    pub series: Seq<SeriesView>,
    /// Raw decoded text.
    pub raw: Seq<char>,
}

impl View for LayerResponse {
    type V = LayerResponseView;

    open spec fn view(&self) -> LayerResponseView {
        LayerResponseView {
            meta: self.meta@,
            parameter: self.parameter@,
            next_position: self.next_position,
            series: self.series.deep_view(),
            raw: self.raw@,
        }
    }
}

/// Decoded metadata response envelope.
#[derive(Debug, Clone, PartialEq, Eq)]
pub struct MetadataResponse {
    /// Response metadata.
    pub meta: ResponseMeta,
    /// Database code the metadata belongs to.
    pub db: String,
    /// Returned metadata entries.
    pub entries: Vec<MetadataEntry>,
    /// Raw decoded text, kept for diagnostics and never reparsed.
    pub raw: String,
}

/// Ghost view of [`MetadataResponse`].
pub ghost struct MetadataResponseView {
    /// Response metadata.
    pub meta: ResponseMetaView,
    /// Database code the metadata belongs to.
    pub db: Seq<char>,
    /// Returned metadata entries.
    pub entries: Seq<MetadataEntryView>,
    /// Raw decoded text.
    pub raw: Seq<char>,
}

impl View for MetadataResponse {
    type V = MetadataResponseView;

    open spec fn view(&self) -> MetadataResponseView {
        MetadataResponseView {
            meta: self.meta@,
            db: self.db@,
            entries: self.entries.deep_view(),
            raw: self.raw@,
        }
    }
}

} // verus!
