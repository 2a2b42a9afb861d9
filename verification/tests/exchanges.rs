use oplire::exchange::{Action, Event, Exchange};
use oplire::json::Json;
use oplire::request::prepare_request;
use oplire::upstream::ProxyError;
use serde_json::Value;

fn value(text: &str) -> Value {
    serde_json::from_str(text).unwrap()
}

const BODY: &str = r#"{"reasoning":{"summary":"auto"},"input":[{"type":"reasoning","id":"r","encrypted_content":"x","summary":[{"text":"t"}]}]}"#;
const STRIPPED: &str =
    r#"{"reasoning":{"summary":"auto"},"input":[{"type":"reasoning","summary":[{"text":"t"}]}]}"#;
const BARE: &str = r#"{"input":[{"type":"reasoning","summary":[{"text":"t"}]}]}"#;

fn begin(max_retries: u32) -> Exchange {
    Exchange::new(Json::parse(BODY.as_bytes()).unwrap(), max_retries)
}

fn upstream(exchange: &mut Exchange, error: ProxyError) -> Action {
    exchange.step(Event::Upstream(error))
}

fn message(action: Action) -> String {
    match action {
        Action::Fail(message) => message,
        other => panic!("{other:?}"),
    }
}

fn reset(exchange: &mut Exchange, expected: u32) {
    match upstream(exchange, ProxyError::RateLimited) {
        Action::ResetWarp { attempt } => assert_eq!(attempt, expected),
        other => panic!("{other:?}"),
    }
    assert!(matches!(exchange.step(Event::WarpReset(true)), Action::Forward));
}

#[test]
fn rate_limits_are_reset_as_often_as_allowed() {
    let mut exchange = begin(2);
    reset(&mut exchange, 0);
    reset(&mut exchange, 1);
    assert_eq!(exchange.retry_count(), 2);
    assert_eq!(exchange.body().to_value(), value(BODY));
    assert_eq!(
        message(upstream(&mut exchange, ProxyError::RateLimited)),
        "Rate limit exceeded after WARP resets"
    );
}

#[test]
fn without_retries_the_first_rate_limit_ends_the_exchange() {
    let mut exchange = begin(0);
    assert_eq!(
        message(upstream(&mut exchange, ProxyError::RateLimited)),
        "Rate limit exceeded after WARP resets"
    );
}

#[test]
fn a_failed_reset_ends_the_exchange() {
    let mut exchange = begin(3);
    assert!(matches!(
        upstream(&mut exchange, ProxyError::RateLimited),
        Action::ResetWarp { attempt: 0 }
    ));
    assert_eq!(
        message(exchange.step(Event::WarpReset(false))),
        "WARP reset failed, rate limit still active"
    );
}

#[test]
fn encrypted_content_is_stripped_once() {
    let mut exchange = begin(1);
    assert!(matches!(
        upstream(&mut exchange, ProxyError::EncryptedContentError),
        Action::Forward
    ));
    assert_eq!(exchange.body().to_value(), value(STRIPPED));
    reset(&mut exchange, 0);
    assert_eq!(exchange.body().to_value(), value(STRIPPED));
    assert_eq!(
        message(upstream(&mut exchange, ProxyError::EncryptedContentError)),
        "Upstream encrypted_content error persisted after retry"
    );
}

#[test]
fn summaries_are_given_up_once() {
    let mut exchange = begin(1);
    assert!(matches!(
        upstream(&mut exchange, ProxyError::SummaryVerificationError),
        Action::Forward
    ));
    assert!(matches!(
        upstream(&mut exchange, ProxyError::EncryptedContentError),
        Action::Forward
    ));
    assert_eq!(exchange.body().to_value(), value(BARE));
    assert_eq!(
        message(upstream(&mut exchange, ProxyError::SummaryVerificationError)),
        "Upstream reasoning-summary verification error persisted after retry"
    );
}

#[test]
fn the_order_of_refusals_does_not_matter() {
    let mut exchange = begin(1);
    upstream(&mut exchange, ProxyError::EncryptedContentError);
    upstream(&mut exchange, ProxyError::SummaryVerificationError);
    assert_eq!(exchange.body().to_value(), value(BARE));
}

#[test]
fn other_failures_are_reported_at_once() {
    let mut exchange = begin(3);
    let error = ProxyError::RequestFailed("Upstream 500 : x".to_string());
    assert_eq!(message(upstream(&mut exchange, error)), "Upstream error: Upstream 500 : x");
}

#[test]
fn replays_are_sent_clean_every_time() {
    let ready = prepare_request(BODY.as_bytes()).unwrap();
    let mut exchange = Exchange::new(ready.body, 1);
    let prepared = value(
        r#"{"store":false,"reasoning":{"summary":"auto"},"input":[{"type":"reasoning","summary":[{"text":"t"}]}]}"#,
    );
    assert_eq!(exchange.body().to_value(), prepared);
    upstream(&mut exchange, ProxyError::EncryptedContentError);
    assert_eq!(exchange.body().to_value(), prepared);
    reset(&mut exchange, 0);
    upstream(&mut exchange, ProxyError::SummaryVerificationError);
    assert_eq!(
        exchange.body().to_value(),
        value(r#"{"store":false,"input":[{"type":"reasoning","summary":[{"text":"t"}]}]}"#)
    );
}

#[test]
fn clean_requests_are_sent_as_they_came() {
    let text = r#"{"store":true,"include":["reasoning.encrypted_content"],"input":"hi"}"#;
    let ready = prepare_request(text.as_bytes()).unwrap();
    let mut exchange = Exchange::new(ready.body, 1);
    assert_eq!(exchange.body().to_value(), value(text));
    reset(&mut exchange, 0);
    assert_eq!(exchange.body().to_value(), value(text));
}

#[test]
fn every_exchange_ends() {
    let mut exchange = begin(2);
    let mut resends = 0;
    for error in [
        ProxyError::RateLimited,
        ProxyError::EncryptedContentError,
        ProxyError::RateLimited,
        ProxyError::SummaryVerificationError,
        ProxyError::RateLimited,
    ] {
        let mut action = upstream(&mut exchange, error);
        if let Action::ResetWarp { .. } = action {
            action = exchange.step(Event::WarpReset(true));
        }
        if let Action::Forward = action {
            resends += 1;
        }
    }
    assert_eq!(resends, 4);
}
