use boj_client::error::BojError;
use boj_client::query_code::CodeQuery;
use boj_client::query_layer::LayerQuery;
use boj_client::query_metadata::MetadataQuery;
use boj_client::options::{Format, Frequency, Language};
use boj_client::url::build_url;

fn pairs_value(pairs: &[(String, String)], key: &str) -> Option<String> {
    pairs.iter().find(|(k, _)| k == key).map(|(_, v)| v.clone())
}

#[test]
fn code_query_rejects_forbidden_chars_and_full_width() {
    let query = CodeQuery::new("CO", vec!["IR01'MADR1Z@D".to_string()]);
    assert!(query.is_err());

    let query = CodeQuery::new("ＣＯ", vec!["MADR1Z@D".to_string()]);
    assert!(query.is_err());
}

#[test]
fn code_query_rejects_invalid_date_range() {
    let query = CodeQuery::new("CO", vec!["TK99F1000601GCQ01000".to_string()])
        .unwrap()
        .with_start_date("202502")
        .unwrap()
        .with_end_date("202401");

    assert!(query.is_err());
}

#[test]
fn code_query_accepts_yyyyxx_and_rejects_invalid_suffix() {
    let valid = CodeQuery::new("CO", vec!["TK99F1000601GCQ01000".to_string()])
        .unwrap()
        .with_start_date("202412")
        .unwrap()
        .with_end_date("202501");
    assert!(valid.is_ok());

    let invalid = CodeQuery::new("CO", vec!["TK99F1000601GCQ01000".to_string()])
        .unwrap()
        .with_start_date("202413");
    assert!(matches!(invalid, Err(BojError::ValidationError(_))));
}

#[test]
fn layer_query_enforces_layer_length_and_frequency_dates() {
    let too_many = LayerQuery::new(
        "BP01",
        Frequency::M,
        vec![
            "1".to_string(),
            "1".to_string(),
            "1".to_string(),
            "1".to_string(),
            "1".to_string(),
            "1".to_string(),
        ],
    );
    assert!(too_many.is_err());

    let invalid_date = LayerQuery::new("BP01", Frequency::Q, vec!["1".to_string()])
        .unwrap()
        .with_start_date("202513");
    assert!(invalid_date.is_err());
}

#[test]
fn layer_query_rejects_start_position_zero() {
    let query = LayerQuery::new("BP01", Frequency::M, vec!["*".to_string()])
        .unwrap()
        .with_start_position(0);
    assert!(query.is_err());
}

#[test]
fn metadata_query_requires_db() {
    let query = MetadataQuery::new(" ");
    assert!(query.is_err());
}

#[test]
fn layer_query_accepts_wildcard_first_layer() {
    let query = LayerQuery::new("MD10", Frequency::Q, vec!["*".to_string()]);
    assert!(query.is_ok());
}

#[test]
fn code_query_rejects_too_many_codes() {
    let mut codes = Vec::new();
    for _ in 0..1251 {
        codes.push("AAA".to_string());
    }
    let query = CodeQuery::new("CO", codes);
    assert!(query.is_err());
}

#[test]
fn frequency_date_shape_is_strict() {
    let ch = LayerQuery::new("FF", Frequency::Ch, vec!["1".to_string()])
        .unwrap()
        .with_start_date("202503")
        .unwrap_err();
    assert!(matches!(ch, BojError::ValidationError(_)));

    let cy = LayerQuery::new("FF", Frequency::Cy, vec!["1".to_string()])
        .unwrap()
        .with_start_date("202501")
        .unwrap_err();
    assert!(matches!(cy, BojError::ValidationError(_)));
}

#[test]
fn code_query_accepts_exactly_1250_codes() {
    let codes: Vec<String> = (0..1250).map(|i| format!("CODE{i}")).collect();
    assert!(CodeQuery::new("CO", codes).is_ok());

    let none: Vec<String> = Vec::new();
    assert!(CodeQuery::new("CO", none).is_err());
}

#[test]
fn date_year_bounds_are_inclusive() {
    let q = CodeQuery::new("CO", vec!["A".to_string()]).unwrap();
    assert!(q.clone().with_start_date("1850").is_ok());
    assert!(q.clone().with_start_date("2050").is_ok());
    assert!(q.clone().with_start_date("1849").is_err());
    assert!(q.clone().with_start_date("2051").is_err());
    assert!(q.clone().with_start_date("185001").is_ok());
    assert!(q.with_start_date("185000").is_err());
}

#[test]
fn date_order_is_checked_in_either_setter_order() {
    let base = CodeQuery::new("CO", vec!["A".to_string()]).unwrap();
    let end_first = base
        .clone()
        .with_end_date("202401")
        .unwrap()
        .with_start_date("202502");
    assert!(end_first.is_err());

    let start_first = base
        .with_start_date("202502")
        .unwrap()
        .with_end_date("202401");
    assert!(start_first.is_err());
}

#[test]
fn code_query_builds_stable_url_and_normalizes_case() {
    let query = CodeQuery::new(
        "co",
        vec![
            "TK99F1000601GCQ01000".to_string(),
            "TK99F2000601GCQ01000".to_string(),
        ],
    )
    .unwrap()
    .with_format(Format::Json)
    .with_lang(Language::Jp)
    .with_start_date("202401")
    .unwrap()
    .with_end_date("202504")
    .unwrap()
    .with_start_position(250)
    .unwrap();

    let url = build_url("https://example.com", query.endpoint(), &query.query_pairs());
    assert_eq!(
        url,
        "https://example.com/api/v1/getDataCode?format=json&lang=jp&db=CO&startDate=202401&endDate=202504&code=TK99F1000601GCQ01000%2CTK99F2000601GCQ01000&startPosition=250"
    );
}

#[test]
fn layer_query_builds_expected_url() {
    let query = LayerQuery::new(
        "bp01",
        Frequency::M,
        vec!["1".to_string(), "1".to_string(), "1".to_string()],
    )
    .unwrap()
    .with_format(Format::Csv)
    .with_lang(Language::En)
    .with_start_date("202504")
    .unwrap()
    .with_end_date("202509")
    .unwrap();

    let url = build_url("https://example.com", query.endpoint(), &query.query_pairs());
    assert_eq!(
        url,
        "https://example.com/api/v1/getDataLayer?format=csv&lang=en&db=BP01&frequency=M&layer=1%2C1%2C1&startDate=202504&endDate=202509"
    );
}

#[test]
fn metadata_query_builds_expected_url() {
    let query = MetadataQuery::new("pr01")
        .unwrap()
        .with_format(Format::Csv)
        .with_lang(Language::Jp);

    let url = build_url("https://example.com", query.endpoint(), &query.query_pairs());
    assert_eq!(url, "https://example.com/api/v1/getMetadata?format=csv&lang=jp&db=PR01");
}

#[test]
fn unknown_db_is_allowed_for_backward_compatibility() {
    let query = CodeQuery::new("unknown_db", vec!["TK99F1000601GCQ01000".to_string()]).unwrap();
    let url = build_url("https://example.com", query.endpoint(), &query.query_pairs());
    assert_eq!(
        url,
        "https://example.com/api/v1/getDataCode?db=UNKNOWN_DB&code=TK99F1000601GCQ01000"
    );
}

#[test]
fn request_url_snapshot() {
    let query = CodeQuery::new(
        "CO",
        vec![
            "TK99F1000601GCQ01000".to_string(),
            "TK99F2000601GCQ01000".to_string(),
        ],
    )
    .unwrap()
    .with_format(Format::Json)
    .with_lang(Language::Jp)
    .with_start_date("202401")
    .unwrap()
    .with_end_date("202504")
    .unwrap();

    let url = build_url("https://example.com", query.endpoint(), &query.query_pairs());
    assert_eq!(
        url,
        "https://example.com/api/v1/getDataCode?format=json&lang=jp&db=CO&startDate=202401&endDate=202504&code=TK99F1000601GCQ01000%2CTK99F2000601GCQ01000"
    );
}

#[test]
fn query_pairs_round_trip_preserves_fields() {
    let query = CodeQuery::new("co", vec!["AAA".to_string(), "BBB".to_string()])
        .unwrap()
        .with_start_date("2024")
        .unwrap()
        .with_end_date("2025")
        .unwrap()
        .with_start_position(7)
        .unwrap();
    let pairs = query.query_pairs();

    assert_eq!(pairs_value(&pairs, "db").as_deref(), Some("CO"));
    assert_eq!(pairs_value(&pairs, "startDate").as_deref(), Some("2024"));
    assert_eq!(pairs_value(&pairs, "endDate").as_deref(), Some("2025"));
    assert_eq!(pairs_value(&pairs, "startPosition").as_deref(), Some("7"));
    let joined = pairs_value(&pairs, "code").unwrap();
    let codes: Vec<&str> = joined.split(',').collect();
    assert_eq!(codes, vec!["AAA", "BBB"]);

    let reparsed = CodeQuery::new(
        pairs_value(&pairs, "db").unwrap().as_str(),
        codes.iter().map(|c| c.to_string()).collect(),
    )
    .unwrap()
    .with_start_date(pairs_value(&pairs, "startDate").unwrap().as_str())
    .unwrap()
    .with_end_date(pairs_value(&pairs, "endDate").unwrap().as_str())
    .unwrap()
    .with_start_position(pairs_value(&pairs, "startPosition").unwrap().parse().unwrap())
    .unwrap();
    assert_eq!(reparsed.query_pairs(), pairs);
}

#[test]
fn build_url_encodes_query_pairs() {
    let url = build_url(
        "https://example.com/",
        "/api/v1/getDataCode",
        &vec![("code".to_string(), "A,B".to_string())],
    );
    assert_eq!(
        url,
        "https://example.com/api/v1/getDataCode?code=A%2CB".to_string()
    );
}
