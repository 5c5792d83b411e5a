//! Client-side core for a statistical time-series API: query validation and
//! construction, dual-format (structured / tabular) response decoding, and the
//! error-classification and retry policy that consumes decoding results.

pub mod catalog;
pub mod csv_data;
pub mod decode;
pub mod decode_common;
pub mod decode_csv;
pub mod decode_json;
pub mod error;
pub mod json;
pub mod laws;
pub mod model;
pub mod options;
pub mod query_code;
pub mod query_layer;
pub mod query_metadata;
pub mod retry;
pub mod text;
pub mod tools;
pub mod url;
pub mod validate;
pub mod wire;
