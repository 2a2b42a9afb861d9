use oplire::config::{AppConfig, ProxyConfig};
use oplire::json::Json;
use oplire::reply::{
    document_head, error_response, model_detail_reply, models_reply, stream_head, Fetched,
};
use oplire::upstream::{
    is_encrypted_content_error, is_summary_verification_error, judge_status,
    lower_refuses_encrypted_content, lower_refuses_summaries, model_detail_request, models_request,
    read_refusal, responses_request, upstream_error, ProxyError, Verdict,
};
use serde_json::Value;

fn value(text: &str) -> Value {
    serde_json::from_str(text).unwrap()
}

fn pairs(headers: &[(String, String)]) -> Vec<(&str, &str)> {
    headers.iter().map(|(name, text)| (name.as_str(), text.as_str())).collect()
}

const REFUSED_CONTENT: &str =
    r#"{"message": "reasoning `encrypted_content` was not issued to this caller"}"#;
const REFUSED_SUMMARY: &str =
    "Your organization must be verified to generate reasoning summaries.";

#[test]
fn settings_have_defaults() {
    let config = ProxyConfig::default();
    assert_eq!(config.listen_addr, "127.0.0.1:8080");
    assert_eq!(config.opencode_base_url, "http://localhost:3000");
    assert_eq!(config.opencode_api_key, None);
    assert_eq!(config.max_retries, 3);
    assert_eq!(config.warp_reset_delay_ms, 5000);
    let config = AppConfig::default();
    assert_eq!(config.listen, "127.0.0.1:8080");
    assert_eq!(config.upstream, "http://localhost:3000");
    assert_eq!(config.max_retries, 3);
    assert_eq!(config.warp_delay, 5000);
    assert_eq!(config.api_key, None);
}

#[test]
fn refusals_are_recognised_in_any_case() {
    assert!(is_encrypted_content_error(REFUSED_CONTENT));
    assert!(is_encrypted_content_error(&REFUSED_CONTENT.to_uppercase()));
    assert!(!is_encrypted_content_error("encrypted_content"));
    assert!(!is_encrypted_content_error("it was not issued to this caller"));
    assert!(!is_encrypted_content_error(""));
    assert!(is_summary_verification_error(REFUSED_SUMMARY));
    assert!(is_summary_verification_error("SUMMARY: MUST BE VERIFIED"));
    assert!(!is_summary_verification_error("must be verified"));
    assert!(!is_summary_verification_error("summaries"));
    assert!(lower_refuses_summaries("summar must be verified"));
    assert!(!lower_refuses_summaries("SUMMAR MUST BE VERIFIED"));
    assert!(lower_refuses_encrypted_content("was not issued to this callerencrypted_content"));
    assert!(!lower_refuses_encrypted_content("ENCRYPTED_CONTENT was not issued to this caller"));
}

#[test]
fn letter_case_and_surrounding_text_hide_no_refusal() {
    for message in [REFUSED_CONTENT, REFUSED_SUMMARY, "must be verified", "encrypted_content", ""] {
        let content = is_encrypted_content_error(message);
        let summary = is_summary_verification_error(message);
        let upper = message.to_ascii_uppercase();
        assert_eq!(is_encrypted_content_error(&upper), content);
        assert_eq!(is_summary_verification_error(&upper), summary);
        for (before, after) in [("", "!"), ("Error: ", " (code 7)"), ("\u{130}\u{3a3}", "\u{3a3}")] {
            let longer = format!("{before}{message}{after}");
            assert!(!content || is_encrypted_content_error(&longer));
            assert!(!summary || is_summary_verification_error(&longer));
        }
    }
}

#[test]
fn no_character_beside_a_message_hides_it() {
    for c in (0..=0x10ffffu32).filter_map(char::from_u32) {
        let content = format!("{c}encrypted_content{c}WAS not issued to this caller{c}");
        assert!(is_encrypted_content_error(&content), "{c:?}");
        let summary = format!("{c}Summar{c}must be VERIFIED{c}");
        assert!(is_summary_verification_error(&summary), "{c:?}");
    }
}

#[test]
fn lower_case_goes_by_characters_but_for_the_form_of_sigmas() {
    let plain = |text: String| text.replace('\u{3c2}', "\u{3c3}");
    for c in (0..=0x10ffffu32).filter_map(char::from_u32) {
        let alone = c.to_string().to_lowercase();
        if c.is_ascii() {
            assert_eq!(alone, c.to_ascii_lowercase().to_string());
        }
        let whole = format!("A{c}\u{3a3} z{c}").to_lowercase();
        assert_eq!(plain(whole), plain(format!("a{alone}\u{3c3} z{alone}")), "{c:?}");
    }
}

#[test]
fn statuses_are_judged() {
    assert_eq!(judge_status(200), Verdict::Success);
    assert_eq!(judge_status(299), Verdict::Success);
    assert_eq!(judge_status(199), Verdict::Refused);
    assert_eq!(judge_status(300), Verdict::Refused);
    assert_eq!(judge_status(400), Verdict::Refused);
    assert_eq!(judge_status(429), Verdict::RateLimited);
    assert_eq!(judge_status(500), Verdict::Refused);
}

fn failed(error: ProxyError) -> String {
    match error {
        ProxyError::RequestFailed(message) => message,
        other => panic!("{other:?}"),
    }
}

#[test]
fn refusals_are_told_apart() {
    let refused = |status, body: &str| upstream_error(status, Some(body.to_string()));
    assert!(matches!(refused(429, REFUSED_CONTENT), ProxyError::RateLimited));
    assert!(matches!(upstream_error(429, None), ProxyError::RateLimited));
    assert!(matches!(refused(400, REFUSED_CONTENT), ProxyError::EncryptedContentError));
    assert!(matches!(refused(400, REFUSED_SUMMARY), ProxyError::SummaryVerificationError));
    let both = format!("{REFUSED_SUMMARY} {REFUSED_CONTENT}");
    assert!(matches!(refused(400, &both), ProxyError::EncryptedContentError));
    assert_eq!(failed(refused(400, "no")), "Upstream 400 Bad Request : no");
    assert_eq!(
        failed(refused(403, REFUSED_SUMMARY)),
        format!("Upstream 403 Forbidden : {REFUSED_SUMMARY}")
    );
    assert_eq!(failed(upstream_error(500, None)), "Upstream 500 Internal Server Error : Unknown error");
    assert_eq!(failed(refused(599, "")), "Upstream 599 <unknown status code> : ");
    assert_eq!(failed(read_refusal(400, "S", "B", "lower")), "Upstream S : B");
}

#[test]
fn requests_to_responses_carry_the_document() {
    let body = Json::parse(br#"{"a":[1]}"#).unwrap();
    let auth = Some("Bearer k".to_string());
    let request = responses_request("http://up:3000//", &auth, &body, true);
    assert_eq!(request.url, "http://up:3000/v1/responses");
    assert_eq!(
        pairs(&request.headers),
        [
            ("Content-Type", "application/json"),
            ("Accept", "text/event-stream"),
            ("Authorization", "Bearer k"),
        ]
    );
    assert_eq!(request.body, value(r#"{"a":[1]}"#));
    let request = responses_request("http://up:3000", &None, &body, false);
    assert_eq!(request.url, "http://up:3000/v1/responses");
    assert_eq!(pairs(&request.headers), [("Content-Type", "application/json")]);
}

#[test]
fn requests_for_models_name_what_they_accept() {
    let auth = Some("Bearer k".to_string());
    let request = models_request("http://up/", &auth);
    assert_eq!(request.url, "http://up/v1/models");
    assert_eq!(
        pairs(&request.headers),
        [("Accept", "application/json"), ("Authorization", "Bearer k")]
    );
    let request = model_detail_request("/", "m/1", &None);
    assert_eq!(request.url, "/v1/models/m/1");
    assert_eq!(pairs(&request.headers), [("Accept", "application/json")]);
}

#[test]
fn errors_are_answered_with_a_document() {
    let reply = error_response("went \"wrong\"");
    assert_eq!(reply.status, 500);
    assert_eq!(
        reply.document.unwrap().to_value(),
        value(r#"{"error":{"message":"went \"wrong\"","type":"api_error","code":"internal_error"}}"#)
    );
}

#[test]
fn heads_of_answers_are_fixed() {
    let head = stream_head();
    assert_eq!(head.status, 200);
    assert_eq!(
        pairs(&head.headers),
        [
            ("Content-Type", "text/event-stream; charset=utf-8"),
            ("Cache-Control", "no-cache"),
            ("Connection", "keep-alive"),
            ("X-Accel-Buffering", "no"),
        ]
    );
    let head = document_head();
    assert_eq!(head.status, 200);
    assert_eq!(pairs(&head.headers), [("Content-Type", "application/json")]);
}

#[test]
fn listings_are_passed_on_or_reported_missing() {
    let fetched = |status, body: &[u8]| Some(Fetched { status, body: Some(body.to_vec()) });
    let good = fetched(200, br#"{"data":[]}"#);
    let reply = models_reply(&good);
    assert_eq!(reply.status, 200);
    assert_eq!(reply.document.unwrap().to_value(), value(r#"{"data":[]}"#));
    let reply = model_detail_reply(&good);
    assert_eq!(reply.status, 200);
    assert_eq!(reply.document.unwrap().to_value(), value(r#"{"data":[]}"#));
    for bad in [
        fetched(200, b"<html>"),
        fetched(500, br#"{"data":[]}"#),
        Some(Fetched { status: 200, body: None }),
        None,
    ] {
        let reply = models_reply(&bad);
        assert_eq!(reply.status, 502);
        assert!(reply.document.is_none());
        let reply = model_detail_reply(&bad);
        assert_eq!(reply.status, 404);
        assert!(reply.document.is_none());
    }
}
