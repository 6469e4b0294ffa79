use jaws::cache::AWSHandler;
use jaws::errors::{DataViolation, ErrorKind};
use jaws::json::{field, price_from_document, sole_value};
use jaws::money::parse_amount;

const DOC: &str = r#"{"product":{"sku":"ABC"},"terms":{"OnDemand":{"ABC.JRTCKXETXF":{"priceDimensions":{"ABC.JRTCKXETXF.6YS6EN2CT7":{"unit":"Hrs","pricePerUnit":{"USD":"0.1200000000"}}},"sku":"ABC"}}}}"#;

#[test]
fn parses_plain_amounts() {
    assert_eq!(parse_amount("0.1200000000"), Some(1_200_000_000));
    assert_eq!(parse_amount("0.05"), Some(500_000_000));
    assert_eq!(parse_amount("12"), Some(120_000_000_000));
    assert_eq!(parse_amount("1.5"), Some(15_000_000_000));
    assert_eq!(parse_amount("999999999999999999.9999999999"), Some(9_999_999_999_999_999_999_999_999_999));
}

#[test]
fn refuses_malformed_amounts() {
    assert_eq!(parse_amount(""), None);
    assert_eq!(parse_amount("."), None);
    assert_eq!(parse_amount("1."), None);
    assert_eq!(parse_amount(".5"), None);
    assert_eq!(parse_amount("-1"), None);
    assert_eq!(parse_amount("1e3"), None);
    assert_eq!(parse_amount("0.12345678901"), None);
    assert_eq!(parse_amount("1234567890123456789"), None);
    assert_eq!(parse_amount("1.2.3"), None);
}

#[test]
fn reads_price_from_document() {
    assert_eq!(price_from_document(DOC), Ok(1_200_000_000));
}

#[test]
fn field_and_sole_value() {
    assert_eq!(field(r#"{"a":1,"b":"x"}"#, "b"), Some("\"x\"".to_string()));
    assert_eq!(field(r#"{"a":1}"#, "c"), None);
    assert_eq!(field("[1,2]", "a"), None);
    assert_eq!(sole_value(r#"{"id":{"k":2}}"#), Ok(r#"{"k":2}"#.to_string()));
    assert_eq!(sole_value(r#"{"a":1,"b":2}"#), Err(DataViolation::NotSingleEntry { count: 2 }));
    assert_eq!(sole_value("{}"), Err(DataViolation::NotSingleEntry { count: 0 }));
    assert_eq!(sole_value("3"), Err(DataViolation::PriceDocument));
}

#[test]
fn two_offer_terms_are_refused() {
    let doc = r#"{"terms":{"OnDemand":{"A":{"priceDimensions":{}},"B":{"priceDimensions":{}}}}}"#;
    assert_eq!(price_from_document(doc), Err(DataViolation::NotSingleEntry { count: 2 }));
}

#[test]
fn missing_usd_price_is_refused() {
    let doc = r#"{"terms":{"OnDemand":{"A":{"priceDimensions":{"B":{"pricePerUnit":{"EUR":"0.1"}}}}}}}"#;
    assert_eq!(price_from_document(doc), Err(DataViolation::PriceDocument));
}

#[test]
fn zero_matches_raise_violation_and_leave_cache_empty() {
    let mut handler = AWSHandler::new("eu-west-1".to_string());
    let r = handler.record_odm_price_list("m5.large", &Vec::new());
    let e = r.unwrap_err();
    assert_eq!(e.kind, ErrorKind::DataAssumption(DataViolation::PricingMatches { count: 0 }));
    assert_eq!(handler.get_odm_rate("m5.large"), None);
}

#[test]
fn two_matches_raise_violation_and_leave_cache_empty() {
    let mut handler = AWSHandler::new("eu-west-1".to_string());
    let list = vec![DOC.to_string(), DOC.to_string()];
    let e = handler.record_odm_price_list("m5.large", &list).unwrap_err();
    assert_eq!(e.kind, ErrorKind::DataAssumption(DataViolation::PricingMatches { count: 2 }));
    assert_eq!(handler.get_odm_rate("m5.large"), None);
}

#[test]
fn one_match_populates_rate_cache() {
    let mut handler = AWSHandler::new("eu-west-1".to_string());
    assert_eq!(handler.get_odm_rate("m5.large"), None);
    let r = handler.record_odm_price_list("m5.large", &vec![DOC.to_string()]);
    assert_eq!(r, Ok(1_200_000_000));
    assert_eq!(handler.get_odm_rate("m5.large"), Some(1_200_000_000));
    assert_eq!(handler.get_odm_rate("m5.xlarge"), None);
}

#[test]
fn price_query_filters() {
    let handler = AWSHandler::new("eu-west-1".to_string());
    let filters = handler.odm_filters("m5.large");
    let expected: Vec<(String, String)> = vec![
        ("instanceType", "m5.large"),
        ("regionCode", "eu-west-1"),
        ("preInstalledSw", "NA"),
        ("productfamily", "compute instance"),
        ("tenancy", "Shared"),
        ("operatingSystem", "Linux"),
        ("capacityStatus", "Used"),
    ]
    .into_iter()
    .map(|(a, b)| (a.to_string(), b.to_string()))
    .collect();
    assert_eq!(filters, expected);
}
