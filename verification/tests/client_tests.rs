//! Tests of configuration resolution, request shaping, the error
//! taxonomy, and response interpretation.

use airlinks::client::create_body;
use airlinks::client::interpret_list_body;
use airlinks::client::interpret_record_body;
use airlinks::config::MissingSetting;
use airlinks::error::ClientError;
use airlinks::error::ParseFailure;
use airlinks::AirtableClient;
use airlinks::AirtableConfig;

fn some(s: &str) -> Option<String> {
    Some(s.to_string())
}

fn test_client() -> AirtableClient {
    AirtableClient::new(AirtableConfig::new(
        "token123".to_string(),
        "app1".to_string(),
        "tbl1".to_string(),
    ))
}

#[test]
fn resolve_explicit_wins_over_ambient() {
    let cfg = AirtableConfig::resolve(
        some("tok"),
        some("base"),
        some("table"),
        some("ambient-tok"),
        some("ambient-base"),
        some("ambient-table"),
    )
    .unwrap();
    assert_eq!(cfg.secret_token, "tok");
    assert_eq!(cfg.base, "base");
    assert_eq!(cfg.table, "table");
}

#[test]
fn resolve_falls_back_to_ambient() {
    let cfg = AirtableConfig::resolve(
        None,
        None,
        None,
        some("ambient-tok"),
        some("ambient-base"),
        some("ambient-table"),
    )
    .unwrap();
    assert_eq!(cfg.secret_token, "ambient-tok");
    assert_eq!(cfg.base, "ambient-base");
    assert_eq!(cfg.table, "ambient-table");
}

#[test]
fn resolve_mixed_per_field() {
    let cfg = AirtableConfig::resolve(
        some("tok"),
        None,
        some("table"),
        some("ambient-tok"),
        some("ambient-base"),
        None,
    )
    .unwrap();
    assert_eq!(cfg.secret_token, "tok");
    assert_eq!(cfg.base, "ambient-base");
    assert_eq!(cfg.table, "table");
}

#[test]
fn resolve_missing_setting_fails() {
    let r = AirtableConfig::resolve(None, some("b"), some("t"), None, some("b2"), some("t2"));
    assert_eq!(r.unwrap_err(), MissingSetting::SecretToken);
    let r = AirtableConfig::resolve(some("a"), None, some("t"), some("a2"), None, some("t2"));
    assert_eq!(r.unwrap_err(), MissingSetting::Base);
    let r = AirtableConfig::resolve(some("a"), some("b"), None, None, None, None);
    assert_eq!(r.unwrap_err(), MissingSetting::Table);
}

#[test]
fn missing_setting_names_its_variable() {
    assert_eq!(MissingSetting::SecretToken.variable_name(), "AIRTABLE_SECRET_TOKEN");
    assert_eq!(MissingSetting::Base.variable_name(), "AIRTABLE_BASE");
    assert_eq!(MissingSetting::Table.variable_name(), "AIRTABLE_TABLE");
}

#[test]
fn list_url_exact() {
    let client = test_client();
    assert_eq!(client.list_url(), "https://api.airtable.com/v0/app1/tbl1/?maxRecords=100");
}

#[test]
fn create_url_exact() {
    let client = test_client();
    assert_eq!(client.create_url(), "https://api.airtable.com/v0/app1/tbl1/");
}

#[test]
fn authorization_exact() {
    let client = test_client();
    assert_eq!(client.authorization(), "Bearer token123");
}

#[test]
fn find_url_plain_query() {
    let client = test_client();
    assert_eq!(
        client.find_url("go"),
        "https://api.airtable.com/v0/app1/tbl1/?maxRecords=100&filterByFormula=SEARCH%28%22go%22%2C%20slug%29"
    );
}

#[test]
fn find_url_escapes_adversarial_query() {
    let client = test_client();
    let url = client.find_url("a\"b");
    assert_eq!(
        url,
        "https://api.airtable.com/v0/app1/tbl1/?maxRecords=100&filterByFormula=SEARCH%28%22a%5C%22b%22%2C%20slug%29"
    );
    assert!(!url.contains('"'));
    assert!(!url.contains(' '));
}

#[test]
fn find_url_percent_encodes_non_ascii() {
    let client = test_client();
    let url = client.find_url("\u{e9}");
    assert_eq!(
        url,
        "https://api.airtable.com/v0/app1/tbl1/?maxRecords=100&filterByFormula=SEARCH%28%22%C3%A9%22%2C%20slug%29"
    );
    assert!(url.is_ascii());
    let wide = client.find_url("\u{1F600}");
    assert_eq!(
        wide,
        "https://api.airtable.com/v0/app1/tbl1/?maxRecords=100&filterByFormula=SEARCH%28%22%F0%9F%98%80%22%2C%20slug%29"
    );
}

#[test]
fn list_scenario_one_record() {
    let body = "{\"records\":[{\"fields\":{\"slug\":\"go\",\"target\":\"https://golang.org\"}}]}";
    let records = interpret_list_body(body).unwrap();
    assert_eq!(records.len(), 1);
    assert_eq!(records[0].fields.slug, "go");
    assert_eq!(records[0].fields.target, "https://golang.org");
}

#[test]
fn list_malformed_is_payload_failure() {
    let err = interpret_list_body("{\"recordz\": []}").unwrap_err();
    assert!(err.is_payload());
    assert!(!err.is_transport());
    assert!(!err.is_not_found());
}

#[test]
fn find_scenario_zero_matches_is_not_found() {
    let err = interpret_record_body("{\"records\":[]}").unwrap_err();
    assert!(err.is_payload());
    assert!(err.is_not_found());
    assert_eq!(err.message(), "Parse error: No record found with this slug");
}

#[test]
fn find_scenario_first_record_wins() {
    let body = "{\"records\":[{\"fields\":{\"slug\":\"go\",\"target\":\"https://golang.org\"}},{\"fields\":{\"slug\":\"go2\",\"target\":\"x\"}}]}";
    let rec = interpret_record_body(body).unwrap();
    assert_eq!(rec.fields.slug, "go");
    assert_eq!(rec.fields.target, "https://golang.org");
}

#[test]
fn create_scenario_echoed_record() {
    let request_body = create_body("rs", "https://rust-lang.org");
    let sent = interpret_list_body(&request_body).unwrap();
    assert_eq!(sent.len(), 1);
    assert_eq!(sent[0].fields.slug, "rs");
    assert_eq!(sent[0].fields.target, "https://rust-lang.org");
    let rec = interpret_record_body(&request_body).unwrap();
    assert_eq!(rec.fields.slug, "rs");
    assert_eq!(rec.fields.target, "https://rust-lang.org");
}

#[test]
fn create_zero_echoed_records_is_not_found() {
    let err = interpret_record_body("{\"records\":[]}").unwrap_err();
    assert!(err.is_not_found());
}

#[test]
fn record_malformed_is_payload_not_not_found() {
    let err = interpret_record_body("{]").unwrap_err();
    assert!(err.is_payload());
    assert!(!err.is_not_found());
    assert_eq!(err.message(), "Parse error: response body did not match the record envelope");
}

#[test]
fn transport_error_message() {
    let err = ClientError::RequestError("connection refused".to_string());
    assert!(err.is_transport());
    assert!(!err.is_payload());
    assert_eq!(err.message(), "Request error: connection refused");
}

#[test]
fn parse_failure_messages() {
    assert_eq!(ParseFailure::NotFound.message(), "No record found with this slug");
    assert_eq!(ParseFailure::Malformed.message(), "response body did not match the record envelope");
}
