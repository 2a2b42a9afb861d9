//! What is sent to upstream, what its answers mean, and what callers get.

use vstd::prelude::*;

use crate::json::{Json, JsonTree};
use crate::laws::texts::{cutting_off_repetitions, occurring_is_standing_between};
use crate::reply::{document_tree, error_document, fetched_document, Fetched};
use crate::text::without_trailing;
use crate::upstream::{
    address, header_texts, is_success_status, models_headers, refusal, refusal_body,
    refuses_encrypted_content, refuses_summaries, responses_headers, verdict, Failure, ProxyError,
    Verdict,
};
use crate::wire::parsed_json;

verus! {

/// The address of a path is the base address with the path behind it, once all slashes at the end
/// of the base are cut off: however many there are, they make no difference.
pub proof fn addresses_are_base_and_path(base: Seq<char>, slashes: nat, path: Seq<char>)
    requires
        base.len() > 0 ==> base.last() != '/',
    ensures
        address(base + Seq::new(slashes, |i: int| '/'), path) == base + path,
{
    let whole = base + Seq::new(slashes, |i: int| '/');
    cutting_off_repetitions(whole, '/');
    let rest = without_trailing(whole, '/');
    if rest.len() < base.len() {
        assert(whole[base.len() - 1] == base.last());
    }
    if rest.len() > base.len() {
        assert(rest.last() == whole[rest.len() - 1]);
    }
    assert(rest =~= base);
}

/// A request to the Responses endpoint says that it sends a document. A streamed one says that it
/// takes an event stream, behind that; a whole one does not. Where there is a key it comes last,
/// streamed or not, and without a key there is no header more.
pub proof fn keys_are_sent_with_every_request(header: Seq<char>, streaming: bool)
    ensures
        responses_headers(None, false) == seq![("Content-Type"@, "application/json"@)],
        responses_headers(None, true) == responses_headers(None, false).push(
            ("Accept"@, "text/event-stream"@),
        ),
        responses_headers(Some(header), streaming) == responses_headers(None, streaming).push(
            ("Authorization"@, header),
        ),
        responses_headers(Some(header), streaming).contains(("Authorization"@, header)),
        models_headers(None) == seq![("Accept"@, "application/json"@)],
        models_headers(Some(header)) == models_headers(None).push(("Authorization"@, header)),
        models_headers(Some(header)).contains(("Authorization"@, header)),
{
    assert(responses_headers(None, false) =~= seq![("Content-Type"@, "application/json"@)]);
    assert(responses_headers(None, true) =~= responses_headers(None, false).push(
        ("Accept"@, "text/event-stream"@),
    ));
    assert(responses_headers(Some(header), streaming) =~= responses_headers(None, streaming).push(
        ("Authorization"@, header),
    ));
    assert(responses_headers(Some(header), streaming).last() == ("Authorization"@, header));
    assert(models_headers(None) =~= seq![("Accept"@, "application/json"@)]);
    assert(models_headers(Some(header)) =~= models_headers(None).push(("Authorization"@, header)));
    assert(models_headers(Some(header)).last() == ("Authorization"@, header));
}

/// A request without a key has no `Authorization` header, streamed or not.
pub proof fn without_a_key_none_is_sent(streaming: bool, value: Seq<char>)
    ensures
        !responses_headers(None, streaming).contains(("Authorization"@, value)),
        !models_headers(None).contains(("Authorization"@, value)),
{
    reveal_strlit("Authorization");
    reveal_strlit("Content-Type");
    reveal_strlit("Accept");
    assert("Authorization"@.len() == 13 && "Content-Type"@.len() == 12 && "Accept"@.len() == 6);
    keys_are_sent_with_every_request(value, streaming);
}

/// Headers are their names and values, one for one and in their order.
pub proof fn headers_are_their_texts(headers: Seq<(String, String)>, i: int)
    requires
        0 <= i < headers.len(),
    ensures
        header_texts(headers).len() == headers.len(),
        header_texts(headers)[i] == (headers[i].0@, headers[i].1@),
{
}

/// One text stands somewhere in another.
pub open spec fn stands_in(part: Seq<char>, text: Seq<char>) -> bool {
    exists|before: Seq<char>, after: Seq<char>| text == #[trigger] (before + part + after)
}

/// A message refuses encrypted content just where it holds both of two phrases, wherever they
/// stand, and summaries just where it holds two others.
pub proof fn refusals_hold_their_phrases(lower: Seq<char>)
    ensures
        refuses_encrypted_content(lower) <==> stands_in("encrypted_content"@, lower) && stands_in(
            "was not issued to this caller"@,
            lower,
        ),
        refuses_summaries(lower) <==> stands_in("must be verified"@, lower) && stands_in(
            "summar"@,
            lower,
        ),
{
    occurring_is_standing_between("encrypted_content"@, lower);
    occurring_is_standing_between("was not issued to this caller"@, lower);
    occurring_is_standing_between("must be verified"@, lower);
    occurring_is_standing_between("summar"@, lower);
}

/// The statuses from 200 to 299 are successes, 429 is a rate limit, and every other status is a
/// refusal.
pub proof fn statuses_have_their_meaning(status: u16)
    ensures
        is_success_status(status) <==> 200 <= status && status <= 299,
        verdict(status) == Verdict::Success <==> 200 <= status && status <= 299,
        verdict(status) == Verdict::RateLimited <==> status == 429,
        verdict(status) == Verdict::Refused <==> status != 429 && (status < 200 || status > 299),
{
}

/// Only with status 400 can a refusal be one of encrypted content or of summaries. It is one of
/// encrypted content wherever the message holds its phrases, one of summaries where it holds those
/// and not the others, and in every other case a failure that is reported with the status and the
/// whole body.
pub proof fn refusals_are_told_apart(
    status: u16,
    status_line: Seq<char>,
    body: Seq<char>,
    lower: Seq<char>,
)
    ensures
        ({
            let content = stands_in("encrypted_content"@, lower) && stands_in(
                "was not issued to this caller"@,
                lower,
            );
            let summary = stands_in("must be verified"@, lower) && stands_in("summar"@, lower);
            let outcome = refusal(status, status_line, body, lower);
            &&& status == 400 && content ==> outcome == Failure::EncryptedContent
            &&& status == 400 && !content && summary ==> outcome == Failure::SummaryVerification
            &&& status != 400 || (!content && !summary) ==> outcome == Failure::RequestFailed(
                "Upstream "@ + status_line + " : "@ + body,
            )
        }),
{
    refusals_hold_their_phrases(lower);
}

/// A body that was read is the body of the refusal; one that was not is an unknown error.
pub proof fn bodies_of_refusals(body: Seq<char>)
    ensures
        refusal_body(Some(body)) == body,
        refusal_body(None) == "Unknown error"@,
{
}

/// Each error says what it is.
pub proof fn errors_say_what_they_are(message: String)
    ensures
        ProxyError::RateLimited@ == Failure::RateLimited,
        ProxyError::RequestFailed(message)@ == Failure::RequestFailed(message@),
        ProxyError::EncryptedContentError@ == Failure::EncryptedContent,
        ProxyError::SummaryVerificationError@ == Failure::SummaryVerification,
{
}

/// An error is reported in an object with the one member `error`, an object with the message, the
/// type and the code, and no other member.
pub proof fn errors_are_reported_with_their_message(message: Seq<char>, name: Seq<char>)
    ensures
        error_document(message) matches JsonTree::Object(members) && {
            &&& members.dom().contains(name) <==> name == "error"@
            &&& members["error"@] matches JsonTree::Object(error)
            &&& error.dom().contains(name) <==> name == "message"@ || name == "type"@ || name
                == "code"@
            &&& error["message"@] == JsonTree::Text(message)
            &&& error["type"@] == JsonTree::Text("api_error"@)
            &&& error["code"@] == JsonTree::Text("internal_error"@)
        },
{
    reveal_strlit("message");
    reveal_strlit("type");
    reveal_strlit("code");
    assert("message"@.len() == 7 && "type"@.len() == 4 && "code"@.len() == 4);
    assert("type"@[0] == 't' && "code"@[0] == 'c');
}

/// A listing is had just where upstream reported success and the body that was read is a document;
/// it is then that document.
pub proof fn listings_are_the_documents_of_successes(fetched: Fetched)
    ensures
        fetched_document(None) is None,
        fetched.body is None ==> fetched_document(Some(fetched)) is None,
        !(200 <= fetched.status && fetched.status <= 299) ==> fetched_document(
            Some(fetched),
        ) is None,
        fetched.body is Some && parsed_json(fetched.body->0@) is Err ==> fetched_document(
            Some(fetched),
        ) is None,
        200 <= fetched.status && fetched.status <= 299 && fetched.body is Some && parsed_json(
            fetched.body->0@,
        ) is Ok ==> fetched_document(Some(fetched)) == Some(parsed_json(fetched.body->0@)->Ok_0),
{
}

/// The document of an answer is the one that it holds.
pub proof fn answers_hold_their_documents(document: Json)
    ensures
        document_tree(Some(document)) == Some(document@),
        document_tree(None) is None,
{
}

} // verus!
