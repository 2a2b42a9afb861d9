use oplire::json::Json;
use oplire::request::{prepare, prepare_request};
use oplire::rewrite::{
    has_encrypted_content, inject_responses_fix, strip_encrypted_content_from_input,
    strip_reasoning_summary,
};
use serde_json::Value;

fn value(text: &str) -> Value {
    serde_json::from_str(text).unwrap()
}

fn document(text: &str) -> Json {
    Json::parse(text.as_bytes()).unwrap()
}

fn changed(change: fn(&mut Json), text: &str) -> Value {
    let mut body = document(text);
    change(&mut body);
    body.to_value()
}

const REPLAY: &str = r#"{
    "model": "muse-spark-1.3", "stream": true, "temperature": 0.5,
    "include": ["reasoning.encrypted_content", "usage"],
    "reasoning": {"effort": "high"},
    "input": [
        {"type": "message", "id": "m1", "encrypted_content": "kept"},
        {"type": "reasoning", "id": "r1", "encrypted_content": "blob", "summary": [{"type": "summary_text", "text": "thought"}]},
        {"type": "reasoning", "id": "r2", "encrypted_content": "blob", "summary": []},
        "plain"
    ]}"#;

const REPLAY_PREPARED: &str = r#"{
    "model": "muse-spark-1.3", "stream": true, "temperature": 0.5, "store": false,
    "include": ["usage"],
    "reasoning": {"effort": "high", "summary": "auto"},
    "input": [
        {"type": "message", "id": "m1", "encrypted_content": "kept"},
        {"type": "reasoning", "summary": [{"type": "summary_text", "text": "thought"}]},
        "plain"
    ]}"#;

#[test]
fn encrypted_content_is_found_in_reasoning_items_only() {
    assert!(has_encrypted_content(&document(REPLAY)));
    assert!(has_encrypted_content(&document(
        r#"{"input":[1,{"type":"reasoning","encrypted_content":"x"}]}"#
    )));
    for clean in [
        r#"{"input":[{"type":"reasoning","encrypted_content":""}]}"#,
        r#"{"input":[{"type":"reasoning","encrypted_content":1}]}"#,
        r#"{"input":[{"type":"reasoning"}]}"#,
        r#"{"input":[{"type":"message","encrypted_content":"x"}]}"#,
        r#"{"input":[{"encrypted_content":"x"}]}"#,
        r#"{"input":[["reasoning","encrypted_content"]]}"#,
        r#"{"input":{"type":"reasoning","encrypted_content":"x"}}"#,
        r#"{"input":[]}"#,
        r#"{}"#,
        r#"[{"type":"reasoning","encrypted_content":"x"}]"#,
        r#""input""#,
    ] {
        assert!(!has_encrypted_content(&document(clean)), "{clean}");
    }
}

#[test]
fn stripping_keeps_readable_reasoning_and_drops_the_rest() {
    let text = r#"{"input":[
        {"type":"reasoning","id":"a","encrypted_content":"x","summary":[{"text":"  "},{"text":" t "}],"status":"done"},
        {"type":"reasoning","id":"b","summary":[{"text":" \t\n"}]},
        {"type":"reasoning","id":"c","summary":[{"text":1},"t",{}]},
        {"type":"reasoning","id":"d","summary":"t"},
        {"type":"reasoning","id":"e"},
        {"type":"message","id":"f"},
        null]}"#;
    let expected = r#"{"input":[
        {"type":"reasoning","summary":[{"text":"  "},{"text":" t "}],"status":"done"},
        {"type":"message","id":"f"},
        null]}"#;
    assert_eq!(changed(strip_encrypted_content_from_input, text), value(expected));
}

#[test]
fn stripping_does_nothing_without_an_input_array() {
    for text in [r#"{"input":"x"}"#, r#"{"a":1}"#, r#"[1]"#, r#"null"#] {
        assert_eq!(changed(strip_encrypted_content_from_input, text), value(text));
    }
}

#[test]
fn stripping_twice_changes_nothing_more() {
    let mut body = document(REPLAY);
    strip_encrypted_content_from_input(&mut body);
    let once = body.to_value();
    strip_encrypted_content_from_input(&mut body);
    assert_eq!(body.to_value(), once);
    assert!(!has_encrypted_content(&body));
}

#[test]
fn the_fix_turns_storing_off_and_asks_for_summaries() {
    let cases = [
        (r#"{}"#, r#"{"store":false,"reasoning":{"summary":"auto"}}"#),
        (
            r#"{"store":true,"reasoning":{"effort":"low"}}"#,
            r#"{"store":false,"reasoning":{"effort":"low","summary":"auto"}}"#,
        ),
        (
            r#"{"reasoning":{"summary":"detailed"}}"#,
            r#"{"store":false,"reasoning":{"summary":"detailed"}}"#,
        ),
        (
            r#"{"reasoning":{"summary":null}}"#,
            r#"{"store":false,"reasoning":{"summary":null}}"#,
        ),
        (r#"{"reasoning":"high"}"#, r#"{"store":false,"reasoning":{"summary":"auto"}}"#),
        (r#"{"reasoning":null}"#, r#"{"store":false,"reasoning":{"summary":"auto"}}"#),
    ];
    for (before, after) in cases {
        assert_eq!(changed(inject_responses_fix, before), value(after), "{before}");
    }
}

#[test]
fn the_fix_takes_encrypted_reasoning_out_of_the_wishes() {
    let cases = [
        (
            r#"{"include":["a","reasoning.encrypted_content",1,"reasoning.encrypted_content"]}"#,
            r#"{"store":false,"include":["a",1],"reasoning":{"summary":"auto"}}"#,
        ),
        (
            r#"{"include":["reasoning.encrypted_content"]}"#,
            r#"{"store":false,"reasoning":{"summary":"auto"}}"#,
        ),
        (r#"{"include":[]}"#, r#"{"store":false,"reasoning":{"summary":"auto"}}"#),
        (
            r#"{"include":"reasoning.encrypted_content"}"#,
            r#"{"store":false,"include":"reasoning.encrypted_content","reasoning":{"summary":"auto"}}"#,
        ),
    ];
    for (before, after) in cases {
        assert_eq!(changed(inject_responses_fix, before), value(after), "{before}");
    }
}

#[test]
fn the_fix_leaves_what_is_no_object() {
    for text in [r#"[]"#, r#""x""#, r#"null"#, r#"3"#] {
        assert_eq!(changed(inject_responses_fix, text), value(text));
    }
}

#[test]
fn fixing_twice_changes_nothing_more() {
    let mut body = document(REPLAY);
    inject_responses_fix(&mut body);
    let once = body.to_value();
    inject_responses_fix(&mut body);
    assert_eq!(body.to_value(), once);
}

#[test]
fn fixing_and_stripping_can_be_swapped() {
    let mut body = document(REPLAY);
    strip_encrypted_content_from_input(&mut body);
    inject_responses_fix(&mut body);
    assert_eq!(body.to_value(), value(REPLAY_PREPARED));
}

#[test]
fn summaries_are_taken_out_with_what_they_leave_empty() {
    let cases = [
        (r#"{"a":1,"reasoning":{"summary":"auto"}}"#, r#"{"a":1}"#),
        (
            r#"{"reasoning":{"summary":"auto","effort":"low"}}"#,
            r#"{"reasoning":{"effort":"low"}}"#,
        ),
        (r#"{"reasoning":{"effort":"low"}}"#, r#"{"reasoning":{"effort":"low"}}"#),
        (r#"{"reasoning":{}}"#, r#"{}"#),
        (r#"{"reasoning":"auto"}"#, r#"{"reasoning":"auto"}"#),
        (r#"{}"#, r#"{}"#),
        (r#"[]"#, r#"[]"#),
    ];
    for (before, after) in cases {
        assert_eq!(changed(strip_reasoning_summary, before), value(after), "{before}");
    }
}

#[test]
fn taking_summaries_out_twice_changes_nothing_more() {
    let mut body = document(REPLAY_PREPARED);
    strip_reasoning_summary(&mut body);
    let once = body.to_value();
    strip_reasoning_summary(&mut body);
    assert_eq!(body.to_value(), once);
}

#[test]
fn taking_the_summary_out_undoes_the_fix_but_for_storing() {
    for (before, after) in [
        (r#"{"a":1}"#, r#"{"a":1,"store":false}"#),
        (
            r#"{"store":true,"reasoning":{"effort":"low"}}"#,
            r#"{"store":false,"reasoning":{"effort":"low"}}"#,
        ),
    ] {
        let mut body = document(before);
        inject_responses_fix(&mut body);
        strip_reasoning_summary(&mut body);
        assert_eq!(body.to_value(), value(after));
    }
}

#[test]
fn taking_summaries_out_and_stripping_can_be_swapped() {
    let mut first = document(REPLAY);
    strip_reasoning_summary(&mut first);
    strip_encrypted_content_from_input(&mut first);
    let mut second = document(REPLAY);
    strip_encrypted_content_from_input(&mut second);
    strip_reasoning_summary(&mut second);
    assert_eq!(first.to_value(), second.to_value());
}

#[test]
fn replays_are_prepared_and_keep_model_and_streaming() {
    let ready = prepare_request(REPLAY.as_bytes()).unwrap();
    assert_eq!(ready.body.to_value(), value(REPLAY_PREPARED));
    assert!(ready.streaming);
    assert_eq!(ready.model, "muse-spark-1.3");
    let again = prepare(ready.body);
    assert_eq!(again.body.to_value(), value(REPLAY_PREPARED));
}

#[test]
fn clean_requests_pass_untouched() {
    for text in [
        r#"{"store":true,"include":["reasoning.encrypted_content"],"input":[{"type":"reasoning","id":"r","encrypted_content":""}]}"#,
        r#"{"input":"hello","reasoning":{"effort":"low"}}"#,
        r#"[1,2]"#,
    ] {
        let ready = prepare_request(text.as_bytes()).unwrap();
        assert_eq!(ready.body.to_value(), value(text));
        assert!(!ready.streaming);
        assert_eq!(ready.model, "unknown");
    }
}

#[test]
fn streaming_and_model_have_defaults() {
    let ready = prepare_request(br#"{"stream":"true","model":7}"#).unwrap();
    assert!(!ready.streaming);
    assert_eq!(ready.model, "unknown");
    let ready = prepare_request(br#"{"stream":false,"model":""}"#).unwrap();
    assert!(!ready.streaming);
    assert_eq!(ready.model, "");
}

#[test]
fn broken_requests_are_reported() {
    let message = prepare_request(b"{").unwrap_err();
    assert_eq!(message, "Invalid JSON: EOF while parsing an object at line 1 column 1");
}
