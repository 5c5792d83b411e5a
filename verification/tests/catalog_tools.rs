use boj_client::catalog;
use boj_client::error::BojError;
use boj_client::options::Frequency;
use boj_client::query_layer::LayerQuery;
use boj_client::model::{CodeParameterEcho, CodeResponse, ResponseMeta};
use boj_client::tools::{
    build_layer_query, filter_by_prefix, to_code_output, to_list_databases_output,
    to_message_catalog_output, to_parameter_catalog_output, EndpointScopeParam, FrequencyParam,
    GetDataLayerInput, GetMessageCatalogInput, GetParameterCatalogInput,
};

fn run_list_databases_tool() -> boj_client::tools::ListDatabasesOutput {
    to_list_databases_output()
}

fn run_parameter_catalog_tool(
    input: GetParameterCatalogInput,
) -> boj_client::tools::ParameterCatalogOutput {
    to_parameter_catalog_output(input.endpoint)
}

fn run_message_catalog_tool(
    input: GetMessageCatalogInput,
) -> boj_client::tools::MessageCatalogOutput {
    to_message_catalog_output(input.status)
}

#[test]
fn list_databases_returns_known_count() {
    let output = run_list_databases_tool();
    assert_eq!(output.count, 50);
    assert!(output.databases.iter().any(|entry| entry.code == "BP01"));
}

#[test]
fn parameter_catalog_filters_by_endpoint() {
    let output = run_parameter_catalog_tool(GetParameterCatalogInput {
        endpoint: EndpointScopeParam::GetMetadata,
    });

    assert_eq!(output.endpoint_scope, "getMetadata");
    assert!(output
        .parameters
        .iter()
        .all(|entry| entry.requirements.metadata_api != "unsupported"));
    assert!(output.frequency_codes.is_empty());
    assert!(output.layer_rules.is_empty());
}

#[test]
fn message_catalog_status_filter_applies() {
    let output = run_message_catalog_tool(GetMessageCatalogInput { status: Some(500) });
    assert_eq!(output.count, 1);
    assert_eq!(output.messages[0].message_id, "M181090S");
}

#[test]
fn message_catalog_can_filter_by_status() {
    let output = to_message_catalog_output(Some(503));
    assert_eq!(output.count, 1);
    assert_eq!(output.messages[0].message_id, "M181091S");
}

#[test]
fn list_databases_includes_known_code() {
    let output = to_list_databases_output();
    assert!(output.databases.iter().any(|entry| entry.code == "BP01"));
}

#[test]
fn parameter_catalog_for_metadata_excludes_layer_only_rules() {
    let output = to_parameter_catalog_output(EndpointScopeParam::GetMetadata);
    assert!(output.frequency_codes.is_empty());
    assert!(output.layer_rules.is_empty());
    assert!(output
        .parameters
        .iter()
        .all(|item| item.requirements.metadata_api != "unsupported"));
}

#[test]
fn catalog_db_entries_match_appendix_a() {
    let entries = catalog::databases();
    assert_eq!(entries.len(), 50);
    assert!(entries
        .iter()
        .any(|entry| entry.code == "FM01" && entry.name_ja.contains("無担保コール")));
}

#[test]
fn catalog_message_entries_match_appendix_b() {
    let entries = catalog::message_codes();
    assert_eq!(entries.len(), 24);
    assert!(entries
        .iter()
        .any(|entry| entry.status == 200 && entry.message_id == "M181000I"));
    assert!(entries
        .iter()
        .any(|entry| entry.status == 400 && entry.message_id == "M181020E"));
}

#[test]
fn db_lookup_is_case_insensitive_and_fail_open() {
    let bp01 = catalog::find_db("bp01").expect("known db should exist");
    assert_eq!(bp01.code, "BP01");

    assert!(!catalog::is_known_db("UNKNOWN_DB"));
}

#[test]
fn layer_frequency_enforces_date_shape() {
    let input = GetDataLayerInput {
        db: "BP01".to_string(),
        frequency: FrequencyParam::Q,
        layers: vec!["1".to_string()],
        format: None,
        lang: None,
        start_date: Some("2024".to_string()),
        end_date: None,
        start_position: None,
        include_raw: false,
    };

    let error = build_layer_query(&input).expect_err("query should fail");
    assert!(matches!(error, BojError::ValidationError(_)));
}

#[test]
fn include_raw_false_omits_raw_from_output() {
    let response = CodeResponse {
        meta: ResponseMeta {
            status: 200,
            message_id: "M181000I".to_string(),
            message: "ok".to_string(),
            date: Some("20260219".to_string()),
        },
        parameter: CodeParameterEcho {
            format: None,
            lang: None,
            db: None,
            start_date: None,
            end_date: None,
            start_position: None,
            extras: Vec::new(),
        },
        next_position: None,
        series: Vec::new(),
        raw: "{\"STATUS\":200}".to_string(),
    };

    let output = to_code_output(response, false);
    assert_eq!(output.raw, None);
    assert_eq!(output.series_count, 0);
}

#[test]
fn completion_filters_db_prefix_case_insensitive() {
    let values: Vec<String> = catalog::databases()
        .iter()
        .map(|entry| entry.code.clone())
        .collect();
    let filtered = filter_by_prefix(values, "fm");

    assert!(!filtered.is_empty());
    assert!(filtered.iter().all(|value| value.starts_with("FM")));
    assert!(filtered.iter().any(|value| value == "FM01"));
}

#[test]
fn completion_values_cover_each_argument() {
    let db_values = boj_client::tools::completion_values("db");
    assert_eq!(db_values.len(), 50);
    assert!(db_values.iter().any(|v| v == "FM01"));

    assert_eq!(boj_client::tools::completion_values("format"), vec!["json", "csv"]);
    assert_eq!(boj_client::tools::completion_values("lang"), vec!["jp", "en"]);
    assert_eq!(
        boj_client::tools::completion_values("endpoint"),
        vec!["all", "get_data_code", "get_data_layer", "get_metadata"]
    );
    assert_eq!(boj_client::tools::completion_values("frequency").len(), 8);
    assert_eq!(
        boj_client::tools::completion_values("status"),
        vec!["200", "400", "500", "503"]
    );
    assert!(boj_client::tools::completion_values("other").is_empty());
}

#[test]
fn layer_query_reports_the_first_violated_rule() {
    let no_layers: Vec<String> = Vec::new();
    assert!(matches!(
        LayerQuery::new("BP01", Frequency::M, no_layers),
        Err(BojError::ValidationError(_))
    ));
    assert!(matches!(
        LayerQuery::new("BP01", Frequency::M, vec!["0".to_string()]),
        Err(BojError::ValidationError(_))
    ));
    assert!(LayerQuery::new("BP01", Frequency::M, vec!["2".to_string(), "*".to_string()]).is_ok());
}
