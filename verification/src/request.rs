//! The request of a caller, read and made ready for upstream.

use vstd::prelude::*;

use crate::json::{Json, JsonTree};
use crate::rewrite::{
    carries_encrypted_content, has_encrypted_content, inject_responses_fix, stateless,
    strip_encrypted_content_from_input, with_unbound_input,
};
use crate::text::concat;
use crate::wire::parsed_json;

verus! {

/// A request that is ready for upstream.
#[derive(Debug)]
pub struct PreparedRequest {
    pub body: Json,
    pub streaming: bool,
    pub model: String,
}

/// The request that goes to upstream. One that replays encrypted reasoning is made stateless and
/// stripped; any other passes untouched.
pub open spec fn prepared(body: JsonTree) -> JsonTree {
    if carries_encrypted_content(body) {
        with_unbound_input(stateless(body))
    } else {
        body
    }
}

/// Whether the request asks for a streamed answer.
pub open spec fn wants_stream(body: JsonTree) -> bool {
    body.field("stream"@) == Some(JsonTree::Bool(true))
}

/// The model that the request names.
pub open spec fn named_model(body: JsonTree) -> Seq<char> {
    match body.field("model"@) {
        Some(JsonTree::Text(model)) => model,
        _ => "unknown"@,
    }
}

/// Makes a request ready for upstream.
pub fn prepare(body: Json) -> (ready: PreparedRequest)
    ensures
        ready.body@ == prepared(body@),
        ready.streaming == wants_stream(prepared(body@)),
        ready.model@ == named_model(prepared(body@)),
{
    let mut body = body;
    if has_encrypted_content(&body) {
        inject_responses_fix(&mut body);
        strip_encrypted_content_from_input(&mut body);
    }
    let streaming: bool = match body.get("stream") {
        Some(flag) => match flag.as_bool() {
            Some(flag) => flag,
            None => false,
        },
        None => false,
    };
    let model: String = match body.get("model") {
        Some(model) => match model.as_str() {
            Some(model) => model.to_string(),
            None => "unknown".to_string(),
        },
        None => "unknown".to_string(),
    };
    PreparedRequest { body, streaming, model }
}

/// Reads a request and makes it ready for upstream. The error is the message for the caller.
pub fn prepare_request(raw: &[u8]) -> (outcome: Result<PreparedRequest, String>)
    ensures
        match parsed_json(raw@) {
            Ok(body) => {
                &&& outcome matches Ok(ready)
                &&& ready.body@ == prepared(body)
                &&& ready.streaming == wants_stream(prepared(body))
                &&& ready.model@ == named_model(prepared(body))
            },
            Err(reason) => {
                &&& outcome matches Err(message)
                &&& message@ == "Invalid JSON: "@ + reason
            },
        },
{
    match Json::parse(raw) {
        Ok(body) => Ok(prepare(body)),
        Err(reason) => Err(concat("Invalid JSON: ", reason.as_str())),
    }
}

} // verus!
