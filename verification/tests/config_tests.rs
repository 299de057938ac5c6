use jolt::config::{build_config, parse_header_line, ConfigError, RawConfig, RunMode};

fn raw_count_mode() -> RawConfig {
    RawConfig {
        url: b"http://localhost:8080/".to_vec(),
        method: b"GET".to_vec(),
        body: None,
        headers: Vec::new(),
        concurrency: 4,
        requests: Some(10),
        duration_ms: None,
        percentile: 99,
    }
}

#[test]
fn accepts_plain_get() {
    let c = build_config(raw_count_mode()).unwrap();
    assert_eq!(c.method, b"GET".to_vec());
    assert_eq!(c.concurrency, 4);
    assert!(matches!(c.mode, RunMode::TotalRequests(10)));
    assert_eq!(c.percentile, 99);
    assert!(c.headers.is_empty());
}

#[test]
fn rejects_empty_url() {
    let mut raw = raw_count_mode();
    raw.url = Vec::new();
    assert_eq!(build_config(raw).unwrap_err(), ConfigError::EmptyUrl);
}

#[test]
fn rejects_empty_method() {
    let mut raw = raw_count_mode();
    raw.method = Vec::new();
    assert_eq!(build_config(raw).unwrap_err(), ConfigError::InvalidMethod);
}

#[test]
fn rejects_method_with_bad_byte() {
    let mut raw = raw_count_mode();
    raw.method = b"GE@T".to_vec();
    assert_eq!(build_config(raw).unwrap_err(), ConfigError::InvalidMethod);
}

#[test]
fn accepts_extension_method_token() {
    let mut raw = raw_count_mode();
    raw.method = b"PURGE".to_vec();
    let c = build_config(raw).unwrap();
    assert_eq!(c.method, b"PURGE".to_vec());
}

#[test]
fn parses_header_line_with_trimming() {
    let hp = parse_header_line(&b"  X-Api-Key :  abc def  ".to_vec()).unwrap();
    assert_eq!(hp.name, b"x-api-key".to_vec());
    assert_eq!(hp.value, b"abc def".to_vec());
}

#[test]
fn header_without_colon_is_rejected() {
    let e = parse_header_line(&b"NoColonHere".to_vec()).unwrap_err();
    assert_eq!(e, ConfigError::HeaderMissingSeparator);
}

#[test]
fn header_with_space_in_name_is_rejected() {
    let e = parse_header_line(&b"Bad Name: v".to_vec()).unwrap_err();
    assert_eq!(e, ConfigError::InvalidHeaderName);
}

#[test]
fn header_with_empty_name_is_rejected() {
    let e = parse_header_line(&b" : v".to_vec()).unwrap_err();
    assert_eq!(e, ConfigError::InvalidHeaderName);
}

#[test]
fn header_with_control_byte_in_value_is_rejected() {
    let e = parse_header_line(&b"X-Key: a\x01b".to_vec()).unwrap_err();
    assert_eq!(e, ConfigError::InvalidHeaderValue);
}

#[test]
fn empty_header_value_is_accepted() {
    let hp = parse_header_line(&b"X-Empty:".to_vec()).unwrap();
    assert_eq!(hp.name, b"x-empty".to_vec());
    assert_eq!(hp.value, b"".to_vec());
}

#[test]
fn value_may_contain_further_colons() {
    let hp = parse_header_line(&b"Referer: http://a/b:1".to_vec()).unwrap();
    assert_eq!(hp.name, b"referer".to_vec());
    assert_eq!(hp.value, b"http://a/b:1".to_vec());
}

#[test]
fn malformed_header_fails_run_before_any_request() {
    let mut raw = raw_count_mode();
    raw.headers = vec![b"Accept: text/plain".to_vec(), b"broken".to_vec()];
    let e = build_config(raw).unwrap_err();
    assert_eq!(e, ConfigError::HeaderMissingSeparator);
}

#[test]
fn duplicate_names_keep_last_value_and_first_position() {
    let mut raw = raw_count_mode();
    raw.headers = vec![
        b"X-One: a".to_vec(),
        b"X-Two: b".to_vec(),
        b"x-one: c".to_vec(),
    ];
    let c = build_config(raw).unwrap();
    assert_eq!(c.headers.len(), 2);
    assert_eq!(c.headers[0].name, b"x-one".to_vec());
    assert_eq!(c.headers[0].value, b"c".to_vec());
    assert_eq!(c.headers[1].name, b"x-two".to_vec());
    assert_eq!(c.headers[1].value, b"b".to_vec());
}

#[test]
fn body_defaults_content_type_to_json() {
    let mut raw = raw_count_mode();
    raw.body = Some(b"{}".to_vec());
    let c = build_config(raw).unwrap();
    assert_eq!(c.headers.len(), 1);
    assert_eq!(c.headers[0].name, b"content-type".to_vec());
    assert_eq!(c.headers[0].value, b"application/json".to_vec());
}

#[test]
fn explicit_content_type_is_kept() {
    let mut raw = raw_count_mode();
    raw.body = Some(b"x=1".to_vec());
    raw.headers = vec![b"Content-Type: text/plain".to_vec()];
    let c = build_config(raw).unwrap();
    assert_eq!(c.headers.len(), 1);
    assert_eq!(c.headers[0].name, b"content-type".to_vec());
    assert_eq!(c.headers[0].value, b"text/plain".to_vec());
}

#[test]
fn no_body_means_no_default_content_type() {
    let c = build_config(raw_count_mode()).unwrap();
    assert!(c.headers.is_empty());
}

#[test]
fn rejects_zero_concurrency() {
    let mut raw = raw_count_mode();
    raw.concurrency = 0;
    assert_eq!(build_config(raw).unwrap_err(), ConfigError::ZeroConcurrency);
}

#[test]
fn rejects_missing_stop_condition() {
    let mut raw = raw_count_mode();
    raw.requests = None;
    assert_eq!(
        build_config(raw).unwrap_err(),
        ConfigError::NoStoppingCondition
    );
}

#[test]
fn rejects_both_stop_conditions() {
    let mut raw = raw_count_mode();
    raw.duration_ms = Some(1000);
    assert_eq!(
        build_config(raw).unwrap_err(),
        ConfigError::ConflictingStopConditions
    );
}

#[test]
fn rejects_zero_requests() {
    let mut raw = raw_count_mode();
    raw.requests = Some(0);
    assert_eq!(build_config(raw).unwrap_err(), ConfigError::ZeroRequests);
}

#[test]
fn rejects_zero_duration() {
    let mut raw = raw_count_mode();
    raw.requests = None;
    raw.duration_ms = Some(0);
    assert_eq!(build_config(raw).unwrap_err(), ConfigError::ZeroDuration);
}

#[test]
fn rejects_percentile_above_hundred() {
    let mut raw = raw_count_mode();
    raw.percentile = 101;
    assert_eq!(
        build_config(raw).unwrap_err(),
        ConfigError::PercentileOutOfRange
    );
}

#[test]
fn duration_mode_is_accepted() {
    let mut raw = raw_count_mode();
    raw.requests = None;
    raw.duration_ms = Some(5000);
    let c = build_config(raw).unwrap();
    assert!(matches!(c.mode, RunMode::DurationMillis(5000)));
}
