//! What is sent to upstream, and what its answers mean.

use vstd::prelude::*;
use vstd::utf8::is_ascii_chars;

use crate::json::Json;
use crate::text::{
    concat, contains, letterwise, lowercase, occurs_in, optional, plain_sigma, trim_trailing,
    with_plain_sigmas, without_trailing,
};
use crate::wire::value_tree;

verus! {

/// Why upstream gave no answer that can be passed on.
#[derive(Debug)]
pub enum ProxyError {
    RateLimited,
    RequestFailed(String),
    EncryptedContentError,
    SummaryVerificationError,
}

/// What a [`ProxyError`] says.
pub enum Failure {
    RateLimited,
    RequestFailed(Seq<char>),
    EncryptedContent,
    SummaryVerification,
}

impl View for ProxyError {
    type V = Failure;

    open spec fn view(&self) -> Failure {
        match *self {
            ProxyError::RateLimited => Failure::RateLimited,
            ProxyError::RequestFailed(message) => Failure::RequestFailed(message@),
            ProxyError::EncryptedContentError => Failure::EncryptedContent,
            ProxyError::SummaryVerificationError => Failure::SummaryVerification,
        }
    }
}

/// The names and values of a list of headers.
pub open spec fn header_texts(headers: Seq<(String, String)>) -> Seq<(Seq<char>, Seq<char>)> {
    headers.map_values(|header: (String, String)| (header.0@, header.1@))
}

/// The address of a path below the base address; slashes at the end of the base do not count.
pub open spec fn address(base_url: Seq<char>, path: Seq<char>) -> Seq<char> {
    without_trailing(base_url, '/') + path
}

/// The `Authorization` header, where there is one to send.
pub open spec fn auth_headers(auth: Option<Seq<char>>) -> Seq<(Seq<char>, Seq<char>)> {
    match auth {
        Some(header) => seq![("Authorization"@, header)],
        None => Seq::empty(),
    }
}

/// The headers of a request to the Responses endpoint.
pub open spec fn responses_headers(auth: Option<Seq<char>>, streaming: bool) -> Seq<
    (Seq<char>, Seq<char>),
> {
    let content = seq![("Content-Type"@, "application/json"@)];
    let accept = if streaming {
        seq![("Accept"@, "text/event-stream"@)]
    } else {
        Seq::empty()
    };
    content + accept + auth_headers(auth)
}

/// The headers of a request for model listings.
pub open spec fn models_headers(auth: Option<Seq<char>>) -> Seq<(Seq<char>, Seq<char>)> {
    seq![("Accept"@, "application/json"@)] + auth_headers(auth)
}

/// A request with a document to post.
#[derive(Debug)]
pub struct PostRequest {
    pub url: String,
    pub headers: Vec<(String, String)>,
    pub body: serde_json::Value,
}

/// A request without a body.
#[derive(Debug)]
pub struct GetRequest {
    pub url: String,
    pub headers: Vec<(String, String)>,
}

/// The address of a path below the base address.
fn endpoint(base_url: &str, path: &str) -> (url: String)
    ensures
        url@ == address(base_url@, path@),
{
    concat(trim_trailing(base_url, '/'), path)
}

/// Adds a header behind the others.
fn push_header(headers: &mut Vec<(String, String)>, name: &str, value: &str)
    ensures
        header_texts(final(headers)@) == header_texts(old(headers)@).push((name@, value@)),
{
    headers.push((name.to_string(), value.to_string()));
    assert(header_texts(headers@) =~= header_texts(old(headers)@).push((name@, value@)));
}

/// Adds the `Authorization` header, where there is one to send.
fn push_auth(headers: &mut Vec<(String, String)>, auth: &Option<String>)
    ensures
        header_texts(final(headers)@) == header_texts(old(headers)@) + auth_headers(
            optional(*auth),
        ),
{
    if let Some(header) = auth {
        push_header(headers, "Authorization", header);
    }
    assert(header_texts(headers@) =~= header_texts(old(headers)@) + auth_headers(optional(*auth)));
}

/// The request to the Responses endpoint: the document, posted with the headers for a streamed or a
/// whole answer.
pub fn responses_request(
    base_url: &str,
    auth: &Option<String>,
    body: &Json,
    streaming: bool,
) -> (request: PostRequest)
    ensures
        request.url@ == address(base_url@, "/v1/responses"@),
        header_texts(request.headers@) == responses_headers(optional(*auth), streaming),
        value_tree(request.body) == body@,
{
    let mut headers: Vec<(String, String)> = Vec::new();
    push_header(&mut headers, "Content-Type", "application/json");
    if streaming {
        push_header(&mut headers, "Accept", "text/event-stream");
    }
    push_auth(&mut headers, auth);
    assert(header_texts(headers@) =~= responses_headers(optional(*auth), streaming));
    PostRequest { url: endpoint(base_url, "/v1/responses"), headers, body: body.to_value() }
}

/// The request for the list of models.
pub fn models_request(base_url: &str, auth: &Option<String>) -> (request: GetRequest)
    ensures
        request.url@ == address(base_url@, "/v1/models"@),
        header_texts(request.headers@) == models_headers(optional(*auth)),
{
    let mut headers: Vec<(String, String)> = Vec::new();
    push_header(&mut headers, "Accept", "application/json");
    push_auth(&mut headers, auth);
    assert(header_texts(headers@) =~= models_headers(optional(*auth)));
    GetRequest { url: endpoint(base_url, "/v1/models"), headers }
}

/// The request for one model.
pub fn model_detail_request(base_url: &str, model_id: &str, auth: &Option<String>) -> (request:
    GetRequest)
    ensures
        request.url@ == address(base_url@, "/v1/models/"@ + model_id@),
        header_texts(request.headers@) == models_headers(optional(*auth)),
{
    let list = models_request(base_url, auth);
    let path = concat("/v1/models/", model_id);
    GetRequest { url: endpoint(base_url, path.as_str()), headers: list.headers }
}

/// A lower-case message that refuses encrypted content of another caller.
pub open spec fn refuses_encrypted_content(lower: Seq<char>) -> bool {
    occurs_in("encrypted_content"@, lower) && occurs_in("was not issued to this caller"@, lower)
}

/// A lower-case message that refuses summaries to an unverified organization.
pub open spec fn refuses_summaries(lower: Seq<char>) -> bool {
    occurs_in("must be verified"@, lower) && occurs_in("summar"@, lower)
}

/// A text of ASCII characters occurs in another whichever form the sigmas there have.
proof fn lemma_occurs_without_sigmas(part: Seq<char>, text: Seq<char>)
    requires
        is_ascii_chars(part),
    ensures
        occurs_in(part, text) == occurs_in(part, with_plain_sigmas(text)),
{
    let plain = with_plain_sigmas(text);
    if occurs_in(part, text) {
        let i = choose|i: int|
            0 <= i && i + part.len() <= text.len() && #[trigger] text.subrange(i, i + part.len())
                == part;
        assert forall|j: int| 0 <= j < part.len() implies plain[i + j] == #[trigger] part[j] by {
            assert(text.subrange(i, i + part.len())[j] == text[i + j]);
        }
        assert(plain.subrange(i, i + part.len()) =~= part);
    }
    if occurs_in(part, plain) {
        let i = choose|i: int|
            0 <= i && i + part.len() <= plain.len() && #[trigger] plain.subrange(i, i + part.len())
                == part;
        assert forall|j: int| 0 <= j < part.len() implies text[i + j] == #[trigger] part[j] by {
            assert(plain.subrange(i, i + part.len())[j] == plain_sigma(text[i + j]));
        }
        assert(text.subrange(i, i + part.len()) =~= part);
    }
}

/// What a message refuses does not depend on the form of its sigmas.
proof fn lemma_refusals_without_sigmas(first: Seq<char>, second: Seq<char>)
    requires
        with_plain_sigmas(first) == with_plain_sigmas(second),
    ensures
        refuses_encrypted_content(first) == refuses_encrypted_content(second),
        refuses_summaries(first) == refuses_summaries(second),
{
    reveal_strlit("encrypted_content");
    reveal_strlit("was not issued to this caller");
    reveal_strlit("must be verified");
    reveal_strlit("summar");
    lemma_occurs_without_sigmas("encrypted_content"@, first);
    lemma_occurs_without_sigmas("encrypted_content"@, second);
    lemma_occurs_without_sigmas("was not issued to this caller"@, first);
    lemma_occurs_without_sigmas("was not issued to this caller"@, second);
    lemma_occurs_without_sigmas("must be verified"@, first);
    lemma_occurs_without_sigmas("must be verified"@, second);
    lemma_occurs_without_sigmas("summar"@, first);
    lemma_occurs_without_sigmas("summar"@, second);
}

/// Whether a message in lower case refuses encrypted content of another caller.
pub fn lower_refuses_encrypted_content(lower: &str) -> (refused: bool)
    ensures
        refused == refuses_encrypted_content(lower@),
{
    contains(lower, "encrypted_content") && contains(lower, "was not issued to this caller")
}

/// Whether a message in lower case refuses summaries to an unverified organization.
pub fn lower_refuses_summaries(lower: &str) -> (refused: bool)
    ensures
        refused == refuses_summaries(lower@),
{
    contains(lower, "must be verified") && contains(lower, "summar")
}

/// Whether an error message, in any case, refuses encrypted content of another caller.
pub fn is_encrypted_content_error(body: &str) -> (refused: bool)
    ensures
        refused == refuses_encrypted_content(lowercase(body@)),
        refused == refuses_encrypted_content(letterwise(body@)),
{
    let lower = body.to_lowercase();
    proof {
        lemma_refusals_without_sigmas(lower@, letterwise(body@));
    }
    lower_refuses_encrypted_content(&lower)
}

/// Whether an error message, in any case, refuses summaries to an unverified organization.
pub fn is_summary_verification_error(body: &str) -> (refused: bool)
    ensures
        refused == refuses_summaries(lowercase(body@)),
        refused == refuses_summaries(letterwise(body@)),
{
    let lower = body.to_lowercase();
    proof {
        lemma_refusals_without_sigmas(lower@, letterwise(body@));
    }
    lower_refuses_summaries(&lower)
}

/// The text of a status code, as the crate `http` shows it: the number and the reason.
pub uninterp spec fn status_text(code: u16) -> Seq<char>;

/// Shows a status code of the crate `http`, as `reqwest` has it. Claims only that the text is
/// determined by the number. Other numbers are no status codes.
#[verifier::external_body]
fn show_status(code: u16) -> (text: String)
    requires
        100 <= code <= 999,
    ensures
        text@ == status_text(code),
{
    reqwest::StatusCode::from_u16(code).unwrap().to_string()
}

/// Whether the status code reports success.
pub open spec fn is_success_status(status: u16) -> bool {
    200 <= status < 300
}

/// What the status of an answer says about it.
#[derive(Debug, PartialEq, Eq, Structural)]
pub enum Verdict {
    /// The answer can be passed on.
    Success,
    /// The caller's rate limit is used up; the body does not matter.
    RateLimited,
    /// The body says what went wrong.
    Refused,
}

/// What a status code says about an answer.
pub open spec fn verdict(status: u16) -> Verdict {
    if status == 429 {
        Verdict::RateLimited
    } else if is_success_status(status) {
        Verdict::Success
    } else {
        Verdict::Refused
    }
}

/// Judges an answer by its status code.
pub fn judge_status(status: u16) -> (judged: Verdict)
    ensures
        judged == verdict(status),
{
    if status == 429 {
        Verdict::RateLimited
    } else if 200 <= status && status < 300 {
        Verdict::Success
    } else {
        Verdict::Refused
    }
}

/// What a refusal means, given its status, the status as text, the body, and the body in lower
/// case. Only a status of 400 is looked at more closely.
pub open spec fn refusal(
    status: u16,
    status_line: Seq<char>,
    body: Seq<char>,
    lower: Seq<char>,
) -> Failure {
    if status == 400 && refuses_encrypted_content(lower) {
        Failure::EncryptedContent
    } else if status == 400 && refuses_summaries(lower) {
        Failure::SummaryVerification
    } else {
        Failure::RequestFailed("Upstream "@ + status_line + " : "@ + body)
    }
}

/// Says what a refusal means.
pub fn read_refusal(status: u16, status_line: &str, body: &str, lower: &str) -> (error: ProxyError)
    ensures
        error@ == refusal(status, status_line@, body@, lower@),
{
    if status == 400 {
        if lower_refuses_encrypted_content(lower) {
            return ProxyError::EncryptedContentError;
        }
        if lower_refuses_summaries(lower) {
            return ProxyError::SummaryVerificationError;
        }
    }
    let named = concat("Upstream ", status_line);
    let parted = concat(named.as_str(), " : ");
    ProxyError::RequestFailed(concat(parted.as_str(), body))
}

/// The body of a refusal, or the stand-in for one that could not be read.
pub open spec fn refusal_body(body: Option<Seq<char>>) -> Seq<char> {
    match body {
        Some(body) => body,
        None => "Unknown error"@,
    }
}

/// Says what an answer without success means, from its status and its body, where that could be
/// read.
pub fn upstream_error(status: u16, body: Option<String>) -> (error: ProxyError)
    requires
        100 <= status <= 999,
        !is_success_status(status),
    ensures
        error@ == if verdict(status) == Verdict::RateLimited {
            Failure::RateLimited
        } else {
            refusal(
                status,
                status_text(status),
                refusal_body(optional(body)),
                lowercase(refusal_body(optional(body))),
            )
        },
        verdict(status) == Verdict::Refused ==> error@ == refusal(
            status,
            status_text(status),
            refusal_body(optional(body)),
            letterwise(refusal_body(optional(body))),
        ),
{
    if let Verdict::RateLimited = judge_status(status) {
        return ProxyError::RateLimited;
    }
    let text: String = match body {
        Some(body) => body,
        None => "Unknown error".to_string(),
    };
    let status_line = show_status(status);
    let lower = text.to_lowercase();
    proof {
        lemma_refusals_without_sigmas(lower@, letterwise(text@));
    }
    read_refusal(status, status_line.as_str(), text.as_str(), lower.as_str())
}

} // verus!
