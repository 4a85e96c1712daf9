use rate_tracker::cycle::cycle_outcome;
use rate_tracker::cycle::should_forward;
use rate_tracker::cycle::cycle_interval_secs;
use rate_tracker::cycle::CycleOutcome;
use rate_tracker::fetch::decode_quote_response;
use rate_tracker::fetch::quote_url;
use rate_tracker::fetch::FetchError;
use rate_tracker::fetch::Rate;
use rate_tracker::forward::build_collect_url;
use rate_tracker::forward::build_envelope;
use rate_tracker::forward::build_forward_request;
use rate_tracker::forward::classify_forward_response;
use rate_tracker::forward::ForwardError;

fn chars(s: &str) -> Vec<char> {
    s.chars().collect()
}

fn text(v: &[char]) -> String {
    v.iter().collect()
}

fn is_uuid_v4_text(s: &[char]) -> bool {
    s.len() == 36 && (0..36).all(|i| match i {
        8 | 13 | 18 | 23 => s[i] == '-',
        14 => s[i] == '4',
        19 => matches!(s[i], '8' | '9' | 'a' | 'b'),
        _ => s[i].is_ascii_hexdigit() && !s[i].is_ascii_uppercase(),
    })
}

#[test]
fn fetch_returns_first_rate() {
    let body = chars(r#"[{"r030":840,"txt":"Dollar","rate":37.5,"cc":"USD","exchangedate":"01.02.2024"}]"#);
    let rate = decode_quote_response(200, &body).unwrap();
    assert_eq!(text(&rate.text), "37.5");
}

#[test]
fn fetch_ignores_later_records() {
    let body = chars(r#"[{"rate":1.5,"cc":"USD"},{"rate":99.25,"cc":"EUR"},{"rate":3}]"#);
    let rate = decode_quote_response(200, &body).unwrap();
    assert_eq!(text(&rate.text), "1.5");
}

#[test]
fn fetch_handles_whitespace_and_escapes() {
    let body = chars(" [ { \"txt\" : \"Doll\\\"ar\" , \"ok\" : true , \"rate\" : 5.0 } ] ");
    let rate = decode_quote_response(200, &body).unwrap();
    assert_eq!(text(&rate.text), "5.0");
}

#[test]
fn fetch_keeps_number_shape() {
    let rate = decode_quote_response(200, &chars(r#"[{"rate":42}]"#)).unwrap();
    assert_eq!(text(&rate.text), "42");
    let rate = decode_quote_response(200, &chars(r#"[{"rate":-3.25e-2}]"#)).unwrap();
    assert_eq!(text(&rate.text), "-3.25e-2");
    let rate = decode_quote_response(200, &chars(r#"[{"rate":0.001}]"#)).unwrap();
    assert_eq!(text(&rate.text), "0.001");
    let rate = decode_quote_response(200, &chars(r#"[{"rate":1e+3}]"#)).unwrap();
    assert_eq!(text(&rate.text), "1e+3");
    let rate = decode_quote_response(200, &chars(r#"[{"rate":7E5}]"#)).unwrap();
    assert_eq!(text(&rate.text), "7E5");
}

#[test]
fn fetch_status_error_carries_code() {
    let body = chars(r#"[{"rate":37.5}]"#);
    assert_eq!(decode_quote_response(503, &body), Err(FetchError::HttpStatus(503)));
    assert_eq!(decode_quote_response(404, &body), Err(FetchError::HttpStatus(404)));
    assert_eq!(decode_quote_response(199, &body), Err(FetchError::HttpStatus(199)));
    assert_eq!(decode_quote_response(300, &body), Err(FetchError::HttpStatus(300)));
    assert!(decode_quote_response(204, &body).is_ok());
    assert!(decode_quote_response(299, &body).is_ok());
}

#[test]
fn fetch_empty_array_is_decode_error() {
    assert_eq!(decode_quote_response(200, &chars("[]")), Err(FetchError::Decode));
    assert_eq!(decode_quote_response(200, &chars("  [ ]  ")), Err(FetchError::Decode));
}

#[test]
fn fetch_malformed_body_is_decode_error() {
    assert_eq!(decode_quote_response(200, &chars("not json")), Err(FetchError::Decode));
    assert_eq!(decode_quote_response(200, &chars("")), Err(FetchError::Decode));
    assert_eq!(decode_quote_response(200, &chars(r#"{"rate":1}"#)), Err(FetchError::Decode));
    assert_eq!(decode_quote_response(200, &chars(r#"[{"rate":"37.5"}]"#)), Err(FetchError::Decode));
    assert_eq!(decode_quote_response(200, &chars(r#"[{"cc":"USD"}]"#)), Err(FetchError::Decode));
    assert_eq!(decode_quote_response(200, &chars(r#"[{"rate":1},{"cc":"USD"}]"#)), Err(FetchError::Decode));
    assert_eq!(decode_quote_response(200, &chars(r#"[{"rate":01}]"#)), Err(FetchError::Decode));
    assert_eq!(decode_quote_response(200, &chars(r#"[{"rate":1}]x"#)), Err(FetchError::Decode));
    assert_eq!(decode_quote_response(200, &chars(r#"[{"rate":1}"#)), Err(FetchError::Decode));
}

#[test]
fn envelope_embeds_rate_and_client_id_verbatim() {
    let cid = chars("0f8fad5b-d9cb-469f-a165-70867728950e");
    let env = build_envelope(&cid, &chars("37.5"));
    assert_eq!(
        text(&env),
        "{\"client_id\":\"0f8fad5b-d9cb-469f-a165-70867728950e\",\"events\":[{\"name\":\"currency_exchange\",\"params\":{\"currency\":\"UAH/USD\",\"value\":37.5}}]}"
    );
}

#[test]
fn collect_url_embeds_credentials() {
    let url = build_collect_url(&chars("G-TEST1"), &chars("SECRET-REDACTED"));
    assert_eq!(
        text(&url),
        "https://www.google-analytics.com/mp/collect?measurement_id=G-TEST1&api_secret=SECRET-REDACTED"
    );
}

#[test]
fn forward_request_carries_rate_exactly() {
    let rate = Rate { text: chars("37.5") };
    let req = build_forward_request(Some(chars("G-TEST1")), Some(chars("s3cr3t")), &rate).unwrap();
    assert_eq!(
        text(&req.url),
        "https://www.google-analytics.com/mp/collect?measurement_id=G-TEST1&api_secret=s3cr3t"
    );
    assert!(is_uuid_v4_text(&req.client_id));
    let expected = format!(
        "{{\"client_id\":\"{}\",\"events\":[{{\"name\":\"currency_exchange\",\"params\":{{\"currency\":\"UAH/USD\",\"value\":37.5}}}}]}}",
        text(&req.client_id)
    );
    assert_eq!(text(&req.body), expected);
}

#[test]
fn forward_client_ids_are_fresh_per_request() {
    let rate = Rate { text: chars("1.0") };
    let a = build_forward_request(Some(chars("t")), Some(chars("s")), &rate).unwrap();
    let b = build_forward_request(Some(chars("t")), Some(chars("s")), &rate).unwrap();
    assert!(is_uuid_v4_text(&a.client_id));
    assert!(is_uuid_v4_text(&b.client_id));
    assert_ne!(a.client_id, b.client_id);
}

#[test]
fn forward_missing_config_fails_without_request() {
    let rate = Rate { text: chars("37.5") };
    let r = build_forward_request(None, Some(chars("s")), &rate);
    assert!(matches!(r, Err(ForwardError::MissingConfig)));
    let r = build_forward_request(Some(chars("t")), None, &rate);
    assert!(matches!(r, Err(ForwardError::MissingConfig)));
    let r = build_forward_request(None, None, &rate);
    assert!(matches!(r, Err(ForwardError::MissingConfig)));
}

#[test]
fn forward_response_classification() {
    assert!(classify_forward_response(200, chars("")).is_ok());
    assert!(classify_forward_response(204, chars("")).is_ok());
    assert!(classify_forward_response(299, chars("")).is_ok());
    match classify_forward_response(400, chars("{\"error\":\"bad request\"}")) {
        Err(ForwardError::HttpStatus { status, body }) => {
            assert_eq!(status, 400);
            assert_eq!(text(&body), "{\"error\":\"bad request\"}");
        }
        other => panic!("expected a status error, got {:?}", other),
    }
}

#[test]
fn cycle_full_success() {
    let body = chars(r#"[{"rate": 37.5}]"#);
    let fetched = decode_quote_response(200, &body);
    let rate = fetched.as_ref().unwrap();
    assert_eq!(text(&rate.text), "37.5");
    assert!(should_forward(&fetched));
    let req = build_forward_request(Some(chars("G-TEST1")), Some(chars("s3cr3t")), rate).unwrap();
    let body_text = text(&req.body);
    assert!(body_text.contains("\"value\":37.5}"));
    assert!(body_text.contains("\"currency\":\"UAH/USD\""));
    assert!(body_text.contains("\"name\":\"currency_exchange\""));
    let sent = classify_forward_response(200, chars(""));
    assert!(sent.is_ok());
    let outcome = cycle_outcome(fetched, Some(sent));
    assert!(matches!(outcome, CycleOutcome::Success));
}

#[test]
fn cycle_fetch_failure_skips_forward() {
    let fetched = decode_quote_response(503, &chars(""));
    assert_eq!(fetched, Err(FetchError::HttpStatus(503)));
    assert!(!should_forward(&fetched));
    let outcome = cycle_outcome(fetched, None);
    assert!(matches!(outcome, CycleOutcome::FetchFailed(FetchError::HttpStatus(503))));
}

#[test]
fn cycle_forward_failure_keeps_status_and_body() {
    let fetched = decode_quote_response(200, &chars(r#"[{"rate":37.5}]"#));
    assert!(should_forward(&fetched));
    let rate = fetched.as_ref().unwrap();
    let req = build_forward_request(Some(chars("t")), Some(chars("s")), rate);
    assert!(req.is_ok());
    let sent = classify_forward_response(400, chars("{\"error\":\"bad request\"}"));
    let outcome = cycle_outcome(fetched, Some(sent));
    match outcome {
        CycleOutcome::ForwardFailed(ForwardError::HttpStatus { status, body }) => {
            assert_eq!(status, 400);
            assert_eq!(text(&body), "{\"error\":\"bad request\"}");
        }
        other => panic!("expected a forward status failure, got {:?}", other),
    }
}

#[test]
fn fixed_addresses_and_interval() {
    assert_eq!(
        quote_url(),
        "https://bank.gov.ua/NBUStatService/v1/statdirectory/exchange?valcode=USD&json"
    );
    assert_eq!(cycle_interval_secs(), 3600);
}
