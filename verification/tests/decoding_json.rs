use boj_client::decode::{decode_code, decode_metadata, ensure_success_status};
use boj_client::error::BojError;
use boj_client::options::CsvEncoding;

fn code_success_payload() -> &'static [u8] {
    br#"{
  "STATUS": 200,
  "MESSAGEID": "M181000I",
  "MESSAGE": "OK",
  "PARAMETER": { "DB": "CO" },
  "RESULTSET": [
    {
      "SERIES_CODE": "TK99F1000601GCQ01000",
      "VALUES": {
        "SURVEY_DATES": ["202401", "202402"],
        "VALUES": ["11", null]
      }
    }
  ]
}"#
}

#[test]
fn parses_success_json_and_normalizes_points() {
    let response = decode_code(
        code_success_payload(),
        Some("application/json"),
        CsvEncoding::Utf8,
    )
    .unwrap();

    assert_eq!(response.meta.status, 200);
    assert_eq!(response.meta.message_id, "M181000I");
    assert_eq!(response.parameter.db.as_deref(), Some("CO"));
    assert_eq!(response.next_position, None);
    assert_eq!(response.series.len(), 1);
    assert_eq!(response.series[0].series_code, "TK99F1000601GCQ01000");
    assert_eq!(response.series[0].points.len(), 2);
    assert_eq!(response.series[0].points[0].survey_date, "202401");
    assert_eq!(response.series[0].points[0].value.as_deref(), Some("11"));
    assert_eq!(response.series[0].points[1].value, None);
}

#[test]
fn parses_success_json_with_no_data() {
    let body = br#"{"STATUS": 200, "MESSAGEID": "M181030I", "MESSAGE": "OK but empty"}"#;
    let response = decode_code(body, Some("application/json"), CsvEncoding::Utf8).unwrap();

    assert_eq!(response.meta.status, 200);
    assert_eq!(response.meta.message_id, "M181030I");
    assert!(response.series.is_empty());
}

#[test]
fn returns_api_error_for_error_json_payload() {
    let body = "{\"STATUS\": 400, \"MESSAGEID\": \"M181005E\", \"MESSAGE\": \"DB名が正しくありません。\"}"
        .as_bytes();
    let response = decode_code(body, Some("application/json"), CsvEncoding::Utf8).unwrap();
    let error = ensure_success_status(
        response.meta.status,
        response.meta.message_id.as_str(),
        response.meta.message.as_str(),
    )
    .unwrap_err();

    assert_eq!(
        error,
        BojError::ApiError {
            status: 400,
            message_id: "M181005E".to_string(),
            message: "DB名が正しくありません。".to_string(),
        }
    );
}

#[test]
fn parses_metadata_json_payload() {
    let body = br#"{
  "STATUS": 200,
  "MESSAGEID": "M181000I",
  "MESSAGE": "OK",
  "DB": "FM08",
  "RESULTSET": [
    { "SERIES_CODE": "FXERD01X", "LAYER1": "1" },
    { "SERIES_CODE": "FXERD01", "LAYER1": "2" }
  ]
}"#;
    let response = decode_metadata(body, Some("application/json"), CsvEncoding::Utf8).unwrap();

    assert_eq!(response.meta.status, 200);
    assert_eq!(response.db, "FM08");
    assert_eq!(response.entries.len(), 2);
    assert_eq!(response.entries[0].layer1, Some(1));
    assert_eq!(response.entries[1].series_code.as_deref(), Some("FXERD01"));
}

#[test]
fn rejects_legacy_json_shape() {
    let body = br#"{"RESULT": {"code": "ok"}}"#;
    let result = decode_code(body, Some("application/json"), CsvEncoding::Utf8);
    assert!(matches!(result, Err(BojError::DecodeError(_))));
}

#[test]
fn rejects_invalid_utf8_json_payload() {
    let body: &[u8] = &[0x7b, 0xff, 0xfe, 0x7d];
    let result = decode_code(body, Some("application/json"), CsvEncoding::Utf8);
    assert!(matches!(result, Err(BojError::DecodeError(_))));
}

#[test]
fn status_must_parse_as_integer() {
    let body = br#"{"STATUS": "soon", "MESSAGEID": "X"}"#;
    let result = decode_code(body, Some("application/json"), CsvEncoding::Utf8);
    assert!(matches!(result, Err(BojError::DecodeError(_))));
}

#[test]
fn mismatched_point_arrays_are_rejected() {
    let body = br#"{
  "STATUS": 200, "MESSAGEID": "M181000I", "MESSAGE": "OK",
  "RESULTSET": [
    {"SERIES_CODE": "A", "VALUES": {"SURVEY_DATES": ["202401", "202402"], "VALUES": ["1"]}}
  ]
}"#;
    let result = decode_code(body, Some("application/json"), CsvEncoding::Utf8);
    assert!(matches!(result, Err(BojError::DecodeError(_))));
}

#[test]
fn empty_series_code_is_rejected() {
    let body = br#"{
  "STATUS": 200, "MESSAGEID": "M181000I", "MESSAGE": "OK",
  "RESULTSET": [
    {"SERIES_CODE": "  ", "VALUES": {"SURVEY_DATES": ["202401"], "VALUES": ["1"]}}
  ]
}"#;
    let result = decode_code(body, Some("application/json"), CsvEncoding::Utf8);
    assert!(matches!(result, Err(BojError::DecodeError(_))));
}

#[test]
fn field_lookup_is_case_insensitive_and_extras_are_kept() {
    let body = br#"{
  "status": 200, "messageid": "M181000I", "message": "OK",
  "NextPosition": "250",
  "RESULTSET": [
    {"series_code": "A", "NEW_FIELD": "kept",
     "values": {"survey_dates": ["202401"], "values": [1.5]}}
  ]
}"#;
    let response = decode_code(body, Some("application/json"), CsvEncoding::Utf8).unwrap();
    assert_eq!(response.meta.status, 200);
    assert_eq!(response.next_position, Some(250));
    assert_eq!(response.series[0].points[0].value.as_deref(), Some("1.5"));
    assert!(response.series[0]
        .extras
        .iter()
        .any(|(k, v)| k == "NEW_FIELD" && v.as_deref() == Some("kept")));
}

#[test]
fn response_shape_snapshot() {
    let response = decode_code(
        code_success_payload(),
        Some("application/json"),
        CsvEncoding::Utf8,
    )
    .unwrap();

    assert_eq!(response.meta.status, 200);
    assert_eq!(response.meta.message_id, "M181000I");
    assert_eq!(response.parameter.db.as_deref(), Some("CO"));
    assert_eq!(response.next_position, None);
    assert_eq!(
        response.series.first().map(|series| series.series_code.as_str()),
        Some("TK99F1000601GCQ01000")
    );
    assert_eq!(response.series.first().map(|series| series.points.len()), Some(2));
    let first_point = response.series.first().and_then(|series| series.points.first()).unwrap();
    assert_eq!(first_point.survey_date, "202401");
    assert_eq!(first_point.value.as_deref(), Some("11"));
    assert_eq!(
        response
            .series
            .first()
            .and_then(|series| series.points.get(1))
            .and_then(|point| point.value.clone()),
        None
    );
}

#[test]
fn metadata_response_is_typed() {
    let body = br#"{
  "STATUS": 200,
  "MESSAGEID": "M181000I",
  "MESSAGE": "OK",
  "DB": "FM08",
  "RESULTSET": [
    { "SERIES_CODE": "FXERD01", "LAYER1": "1" }
  ]
}"#;
    let response = decode_metadata(body, Some("application/json"), CsvEncoding::Utf8).unwrap();

    assert_eq!(response.meta.status, 200);
    assert_eq!(response.db, "FM08");
    assert!(!response.entries.is_empty());
}
