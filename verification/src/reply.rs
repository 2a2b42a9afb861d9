//! What the proxy answers to its callers.

use vstd::prelude::*;

use crate::json::{Json, JsonMap, JsonTree};
use crate::upstream::{header_texts, is_success_status, judge_status, Verdict};
use crate::wire::parsed_json;

verus! {

/// An answer that the proxy makes itself: a status, and a document unless the body is empty.
#[derive(Debug)]
pub struct Reply {
    pub status: u16,
    pub document: Option<Json>,
}

/// The status and the headers of an answer whose body comes from upstream.
#[derive(Debug)]
pub struct Head {
    pub status: u16,
    pub headers: Vec<(String, String)>,
}

/// What the document of an answer is, if it has one.
pub open spec fn document_tree(document: Option<Json>) -> Option<JsonTree> {
    match document {
        Some(document) => Some(document@),
        None => None,
    }
}

/// The document that reports an error.
pub open spec fn error_document(message: Seq<char>) -> JsonTree {
    JsonTree::Object(
        map![
            "error"@ => JsonTree::Object(
                map![
                    "message"@ => JsonTree::Text(message),
                    "type"@ => JsonTree::Text("api_error"@),
                    "code"@ => JsonTree::Text("internal_error"@),
                ],
            ),
        ],
    )
}

/// The answer that reports an error: status 500, and the message in a document.
pub fn error_response(message: &str) -> (reply: Reply)
    ensures
        reply.status == 500,
        document_tree(reply.document) == Some(error_document(message@)),
{
    let mut error = JsonMap::new();
    error.insert("message".to_string(), Json::Text(message.to_string()));
    error.insert("type".to_string(), Json::Text("api_error".to_string()));
    error.insert("code".to_string(), Json::Text("internal_error".to_string()));
    let mut members = JsonMap::new();
    members.insert("error".to_string(), Json::Object(error));
    Reply { status: 500, document: Some(Json::Object(members)) }
}

/// The headers of a streamed answer.
pub open spec fn stream_headers() -> Seq<(Seq<char>, Seq<char>)> {
    seq![
        ("Content-Type"@, "text/event-stream; charset=utf-8"@),
        ("Cache-Control"@, "no-cache"@),
        ("Connection"@, "keep-alive"@),
        ("X-Accel-Buffering"@, "no"@),
    ]
}

/// The status and the headers of a streamed answer.
pub fn stream_head() -> (head: Head)
    ensures
        head.status == 200,
        header_texts(head.headers@) == stream_headers(),
{
    let headers: Vec<(String, String)> = vec![
        ("Content-Type".to_string(), "text/event-stream; charset=utf-8".to_string()),
        ("Cache-Control".to_string(), "no-cache".to_string()),
        ("Connection".to_string(), "keep-alive".to_string()),
        ("X-Accel-Buffering".to_string(), "no".to_string()),
    ];
    assert(header_texts(headers@) =~= stream_headers());
    Head { status: 200, headers }
}

/// The status and the headers of an answer that is passed on whole.
pub fn document_head() -> (head: Head)
    ensures
        head.status == 200,
        header_texts(head.headers@) == seq![("Content-Type"@, "application/json"@)],
{
    let headers: Vec<(String, String)> = vec![
        ("Content-Type".to_string(), "application/json".to_string()),
    ];
    assert(header_texts(headers@) =~= seq![("Content-Type"@, "application/json"@)]);
    Head { status: 200, headers }
}

/// What a request for model listings brought: the status, and the body where it was read.
#[derive(Debug)]
pub struct Fetched {
    pub status: u16,
    pub body: Option<Vec<u8>>,
}

/// The document that was fetched, if upstream reported success and sent one.
pub open spec fn fetched_document(fetched: Option<Fetched>) -> Option<JsonTree> {
    match fetched {
        Some(fetched) => match fetched.body {
            Some(body) => match parsed_json(body@) {
                Ok(document) => if is_success_status(fetched.status) {
                    Some(document)
                } else {
                    None
                },
                Err(_) => None,
            },
            None => None,
        },
        None => None,
    }
}

/// Reads the document that was fetched.
pub fn read_fetched(fetched: &Option<Fetched>) -> (document: Option<Json>)
    ensures
        document_tree(document) == fetched_document(*fetched),
{
    let Some(fetched) = fetched else {
        return None;
    };
    let Some(body) = &fetched.body else {
        return None;
    };
    match judge_status(fetched.status) {
        Verdict::Success => match Json::parse(body.as_slice()) {
            Ok(document) => Some(document),
            Err(_) => None,
        },
        _ => None,
    }
}

/// Passes a document on with status 200, or answers with the other status and no body.
pub fn pass_on(document: Option<Json>, otherwise: u16) -> (reply: Reply)
    ensures
        reply.document == document,
        reply.status == if document is Some {
            200
        } else {
            otherwise
        },
{
    let status: u16 = if document.is_some() {
        200
    } else {
        otherwise
    };
    Reply { status, document }
}

/// The answer to a request for the list of models: the list, or 502 if it could not be had.
pub fn models_reply(fetched: &Option<Fetched>) -> (reply: Reply)
    ensures
        document_tree(reply.document) == fetched_document(*fetched),
        reply.status == if fetched_document(*fetched) is Some {
            200u16
        } else {
            502u16
        },
{
    pass_on(read_fetched(fetched), 502)
}

/// The answer to a request for one model: its description, or 404 if it could not be had.
pub fn model_detail_reply(fetched: &Option<Fetched>) -> (reply: Reply)
    ensures
        document_tree(reply.document) == fetched_document(*fetched),
        reply.status == if fetched_document(*fetched) is Some {
            200u16
        } else {
            404u16
        },
{
    pass_on(read_fetched(fetched), 404)
}

} // verus!
