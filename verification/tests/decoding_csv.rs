use boj_client::decode::{decode_code, decode_layer, decode_metadata, ensure_success_status};
use boj_client::decode_csv::decode_code_csv;
use boj_client::error::BojError;
use boj_client::options::CsvEncoding;

fn csv_success_en_utf8() -> Vec<u8> {
    "STATUS,200\nMESSAGEID,M181000I\nMESSAGE,OK\nPARAMETER,FORMAT,CSV\nPARAMETER,LANG,EN\n\nSERIES_CODE,NAME_OF_TIME_SERIES,SURVEY_DATES,VALUES\nTK99F1000601GCQ01000,Short-term rate,202401,11\nTK99F1000601GCQ01000,Short-term rate,202402,\n"
    .as_bytes()
    .to_vec()
}

fn csv_success_jp_text() -> &'static str {
    "STATUS,200\nMESSAGEID,M181000I\nMESSAGE,OK\nSERIES_CODE,NAME_OF_TIME_SERIES_J,SURVEY_DATES,VALUES\nTK99F1000601GCQ01000,D.I./業況/大企業/製造業/実績,202401,11\n"
}

#[test]
fn decodes_utf8_csv_code_response() {
    let response = decode_code(&csv_success_en_utf8(), Some("text/csv"), CsvEncoding::Utf8)
        .unwrap();

    assert_eq!(response.meta.status, 200);
    assert_eq!(response.parameter.format.as_deref(), Some("CSV"));
    assert_eq!(response.parameter.lang.as_deref(), Some("EN"));
    assert_eq!(response.series.len(), 1);
    assert_eq!(response.series[0].points.len(), 2);
    assert_eq!(response.series[0].points[1].value, None);
}

#[test]
fn decodes_utf8_csv_layer_response() {
    let response = decode_layer(&csv_success_en_utf8(), Some("text/csv"), CsvEncoding::Utf8)
        .unwrap();

    assert_eq!(response.meta.status, 200);
    assert_eq!(response.series.len(), 1);
    assert_eq!(response.series[0].series_code, "TK99F1000601GCQ01000");
}

#[test]
fn decodes_shift_jis_csv() {
    let (bytes, _, had_errors) = encoding_rs::SHIFT_JIS.encode(csv_success_jp_text());
    assert!(!had_errors);

    let response = decode_code(&bytes, Some("text/csv"), CsvEncoding::ShiftJis).unwrap();

    assert_eq!(response.meta.status, 200);
    assert_eq!(
        response.series[0].name_of_time_series_j.as_deref(),
        Some("D.I./業況/大企業/製造業/実績")
    );
}

#[test]
fn handles_utf8_bom_in_csv_header() {
    let mut body = vec![0xef, 0xbb, 0xbf];
    body.extend_from_slice(csv_success_en_utf8().as_slice());

    let response = decode_code(&body, Some("text/csv"), CsvEncoding::Utf8).unwrap();

    assert_eq!(response.meta.status, 200);
    assert_eq!(response.meta.message_id, "M181000I");
}

#[test]
fn utf8_decode_fails_for_shift_jis_payload() {
    let (bytes, _, _) = encoding_rs::SHIFT_JIS.encode(csv_success_jp_text());

    let result = decode_code(&bytes, Some("text/csv"), CsvEncoding::Utf8);
    assert!(matches!(result, Err(BojError::DecodeError(_))));
}

#[test]
fn decodes_metadata_csv() {
    let body = "STATUS,200\nMESSAGEID,M181000I\nMESSAGE,OK\nDB,FM08\nSERIES_CODE,LAYER1\nFXERD01X,1\nFXERD01,2\n"
    .as_bytes();

    let response = decode_metadata(body, Some("text/csv"), CsvEncoding::Utf8).unwrap();

    assert_eq!(response.meta.status, 200);
    assert_eq!(response.db, "FM08");
    assert_eq!(response.entries.len(), 2);
    assert_eq!(response.entries[0].layer1, Some(1));
    assert_eq!(response.entries[1].series_code.as_deref(), Some("FXERD01"));
}

#[test]
fn rejects_legacy_csv_shape() {
    let body = "STATUS,200\nMESSAGEID,M181000I\nSERIES_CODE,PERIOD\nA,202401\n"
    .as_bytes();

    let result = decode_code(body, Some("text/csv"), CsvEncoding::Utf8);
    assert!(matches!(result, Err(BojError::DecodeError(_))));
}

#[test]
fn csv_utf8_fails_on_shift_jis_bytes() {
    let shift_jis = vec![0x82, 0xb1, 0x82, 0xf1];
    let result = decode_code_csv(&shift_jis, CsvEncoding::Utf8);
    assert!(result.is_err());
}

#[test]
fn csv_request_still_parses_json_error_payload() {
    let body = "{\"STATUS\": 400, \"MESSAGEID\": \"M181004E\", \"MESSAGE\": \"DBが指定されていません。\"}"
        .as_bytes();

    let response = decode_code(body, Some("text/csv"), CsvEncoding::ShiftJis).unwrap();
    let error = ensure_success_status(
        response.meta.status,
        response.meta.message_id.as_str(),
        response.meta.message.as_str(),
    )
    .unwrap_err();

    assert_eq!(
        error,
        BojError::ApiError {
            status: 400,
            message_id: "M181004E".to_string(),
            message: "DBが指定されていません。".to_string(),
        }
    );
}

#[test]
fn grouping_collects_one_point_per_row_in_row_order() {
    let body = "STATUS,200\nMESSAGEID,M181000I\nSERIES_CODE,UNIT,SURVEY_DATES,VALUES\nA,percent,202401,1\nA,percent,202402,2\nA,percent,202403,\n"
    .as_bytes();

    let response = decode_code(body, Some("text/csv"), CsvEncoding::Utf8).unwrap();
    assert_eq!(response.series.len(), 1);
    let points = &response.series[0].points;
    assert_eq!(points.len(), 3);
    assert_eq!(points[0].survey_date, "202401");
    assert_eq!(points[0].value.as_deref(), Some("1"));
    assert_eq!(points[1].survey_date, "202402");
    assert_eq!(points[2].survey_date, "202403");
    assert_eq!(points[2].value, None);
}

#[test]
fn grouping_splits_rows_differing_in_other_columns() {
    let body = "STATUS,200\nMESSAGEID,M181000I\nSERIES_CODE,UNIT,SURVEY_DATES,VALUES\nA,percent,202401,1\nA,index,202401,9\nB,percent,202401,3\n"
    .as_bytes();

    let response = decode_code(body, Some("text/csv"), CsvEncoding::Utf8).unwrap();
    assert_eq!(response.series.len(), 3);
    assert_eq!(response.series[0].series_code, "A");
    assert_eq!(response.series[0].unit.as_deref(), Some("percent"));
    assert_eq!(response.series[1].series_code, "A");
    assert_eq!(response.series[1].unit.as_deref(), Some("index"));
    assert_eq!(response.series[2].series_code, "B");
    assert_eq!(response.series[0].points.len(), 1);
    assert_eq!(response.series[1].points[0].value.as_deref(), Some("9"));
}

#[test]
fn quoted_cells_keep_embedded_commas() {
    let body = "STATUS,200\nMESSAGEID,M181000I\nSERIES_CODE,NAME_OF_TIME_SERIES,SURVEY_DATES,VALUES\nA,\"rate, overnight\",202401,1\n"
    .as_bytes();

    let response = decode_code(body, Some("text/csv"), CsvEncoding::Utf8).unwrap();
    assert_eq!(
        response.series[0].name_of_time_series.as_deref(),
        Some("rate, overnight")
    );
}

#[test]
fn structured_and_tabular_forms_decode_to_equal_envelopes() {
    let json_body = br#"{
  "STATUS": 200,
  "MESSAGEID": "M181000I",
  "MESSAGE": "OK",
  "RESULTSET": [
    {
      "SERIES_CODE": "A",
      "VALUES": {"SURVEY_DATES": ["202401", "202402"], "VALUES": ["1", null]}
    },
    {
      "SERIES_CODE": "B",
      "VALUES": {"SURVEY_DATES": ["202401"], "VALUES": ["3"]}
    }
  ]
}"#;
    let csv_body = "STATUS,200\nMESSAGEID,M181000I\nMESSAGE,OK\nSERIES_CODE,SURVEY_DATES,VALUES\nA,202401,1\nA,202402,\nB,202401,3\n"
    .as_bytes();

    let from_json = decode_code(json_body, Some("application/json"), CsvEncoding::Utf8).unwrap();
    let from_csv = decode_code(csv_body, Some("text/csv"), CsvEncoding::Utf8).unwrap();

    assert_eq!(from_json.meta.status, from_csv.meta.status);
    assert_eq!(from_json.meta.message_id, from_csv.meta.message_id);
    assert_eq!(from_json.series.len(), from_csv.series.len());
    for (a, b) in from_json.series.iter().zip(from_csv.series.iter()) {
        assert_eq!(a.series_code, b.series_code);
        assert_eq!(a.points, b.points);
    }
}

#[test]
fn wrong_single_byte_hint_on_multibyte_payload_fails_loudly() {
    let text = "STATUS,200\nMESSAGEID,M181000I\nSERIES_CODE,NAME_OF_TIME_SERIES_J,SURVEY_DATES,VALUES\nA,あ,202401,1\n";
    let result = decode_code_csv(text.as_bytes(), CsvEncoding::ShiftJis);
    assert!(matches!(result, Err(BojError::DecodeError(_))));
}

#[test]
fn sniffed_json_wins_over_declared_tabular_type() {
    let body = br#"{"STATUS": 200, "MESSAGEID": "M181000I", "MESSAGE": "OK"}"#;
    let response = decode_code(body, Some("text/csv"), CsvEncoding::Utf8).unwrap();
    assert_eq!(response.meta.status, 200);
    assert!(response.series.is_empty());
}

#[test]
fn repeated_meta_rows_keep_the_last_value() {
    let body = "STATUS,400\nSTATUS,200\nMESSAGEID,M181000I\nSERIES_CODE,SURVEY_DATES,VALUES\nA,202401,1\n"
        .as_bytes();

    let response = decode_code(body, Some("text/csv"), CsvEncoding::Utf8).unwrap();
    assert_eq!(response.meta.status, 200);
}

#[test]
fn duplicate_header_names_resolve_to_the_last_column() {
    let body = "STATUS,200\nMESSAGEID,M181000I\nSERIES_CODE,UNIT,UNIT,SURVEY_DATES,VALUES\nA,old,new,202401,1\n"
        .as_bytes();

    let response = decode_code(body, Some("text/csv"), CsvEncoding::Utf8).unwrap();
    assert_eq!(response.series[0].unit.as_deref(), Some("new"));
}

#[test]
fn unknown_echoed_parameters_are_kept_as_extras() {
    let body = "STATUS,200\nMESSAGEID,M181000I\nPARAMETER,DB,CO\nPARAMETER,HINT,fast\nNEXTPOSITION,251\nSERIES_CODE,SURVEY_DATES,VALUES\nA,202401,1\n"
        .as_bytes();

    let response = decode_code(body, Some("text/csv"), CsvEncoding::Utf8).unwrap();
    assert_eq!(response.parameter.db.as_deref(), Some("CO"));
    assert_eq!(response.next_position, Some(251));
    assert!(response
        .parameter
        .extras
        .iter()
        .any(|(k, v)| k == "HINT" && v == "fast"));
}
