use boj_client::options::Frequency;
use boj_client::validate::{
    parse_layer_value, validate_code_list, validate_date_for_frequency, validate_date_generic,
    validate_date_order, validate_identifier, validate_start_position, LayerValue,
};

#[test]
fn date_for_frequency_accepts_each_allowed_suffix_range() {
    assert!(validate_date_for_frequency("2024", Frequency::Cy).is_ok());
    assert!(validate_date_for_frequency("2024", Frequency::Fy).is_ok());
    assert!(validate_date_for_frequency("202402", Frequency::Ch).is_ok());
    assert!(validate_date_for_frequency("202404", Frequency::Q).is_ok());
    assert!(validate_date_for_frequency("202412", Frequency::M).is_ok());
    assert!(validate_date_for_frequency("202401", Frequency::W).is_ok());
    assert!(validate_date_for_frequency("202412", Frequency::D).is_ok());
}

#[test]
fn date_for_frequency_rejects_out_of_range_years_and_suffixes() {
    assert!(validate_date_for_frequency("1849", Frequency::Cy).is_err());
    assert!(validate_date_for_frequency("2051", Frequency::Cy).is_err());
    assert!(validate_date_for_frequency("184912", Frequency::M).is_err());
    assert!(validate_date_for_frequency("205101", Frequency::M).is_err());
    assert!(validate_date_for_frequency("202403", Frequency::Ch).is_err());
    assert!(validate_date_for_frequency("202405", Frequency::Q).is_err());
    assert!(validate_date_for_frequency("202413", Frequency::M).is_err());
    assert!(validate_date_for_frequency("202400", Frequency::M).is_err());
    assert!(validate_date_for_frequency("202401", Frequency::Cy).is_err());
    assert!(validate_date_for_frequency("2024", Frequency::Q).is_err());
}

#[test]
fn code_list_bounds_are_one_and_1250() {
    let one = vec!["A".to_string()];
    assert!(validate_code_list(&one).is_ok());

    let full: Vec<String> = (0..1250).map(|i| format!("C{i}")).collect();
    assert!(validate_code_list(&full).is_ok());

    let empty: Vec<String> = Vec::new();
    assert!(validate_code_list(&empty).is_err());

    let over: Vec<String> = (0..1251).map(|i| format!("C{i}")).collect();
    assert!(validate_code_list(&over).is_err());

    let with_comma = vec!["A,B".to_string()];
    assert!(validate_code_list(&with_comma).is_err());
}

#[test]
fn identifier_rules_reject_blank_non_ascii_and_forbidden() {
    assert!(validate_identifier("DB", "CO").is_ok());
    assert!(validate_identifier("DB", "  ").is_err());
    assert!(validate_identifier("DB", "Ｃ").is_err());
    for bad in ["a<b", "a>b", "a!b", "a|b", "a\\b", "a;b", "a'b", "a\"b"] {
        assert!(validate_identifier("DB", bad).is_err(), "{bad}");
    }
}

#[test]
fn layer_tokens_are_wildcard_or_positive_integers() {
    assert_eq!(parse_layer_value("*").unwrap(), LayerValue::Wildcard);
    assert_eq!(parse_layer_value("12").unwrap(), LayerValue::Index(12));
    assert_eq!(parse_layer_value("+3").unwrap(), LayerValue::Index(3));
    assert!(parse_layer_value("0").is_err());
    assert!(parse_layer_value("-1").is_err());
    assert!(parse_layer_value("x").is_err());
    assert!(parse_layer_value("").is_err());
}

#[test]
fn date_order_requires_same_shape_and_order() {
    assert!(validate_date_order("2024", "2024").is_ok());
    assert!(validate_date_order("202401", "202402").is_ok());
    assert!(validate_date_order("2024", "202401").is_err());
    assert!(validate_date_order("202402", "202401").is_err());
}

#[test]
fn start_position_must_be_at_least_one() {
    assert!(validate_start_position(1).is_ok());
    assert!(validate_start_position(0).is_err());
}

#[test]
fn generic_date_shape_is_four_or_six_digits() {
    assert!(validate_date_generic("2024").is_ok());
    assert!(validate_date_generic("202412").is_ok());
    assert!(validate_date_generic("20241").is_err());
    assert!(validate_date_generic("2024130").is_err());
    assert!(validate_date_generic("20x4").is_err());
    assert!(validate_date_generic("").is_err());
}
