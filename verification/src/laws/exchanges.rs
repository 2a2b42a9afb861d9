//! Laws of exchanges with upstream.

use vstd::prelude::*;

use crate::exchange::{beginning, is_due, next, ExchangeState, Incident, Move};
use crate::json::JsonTree;
use crate::laws::requests::{
    clean_requests_pass_untouched, stripping_a_prepared_replay_changes_nothing,
};
use crate::laws::rewriting::{
    lemma_names_differ, stateless_requests_ask_for_summaries, stripping_and_summary_wish_commute,
    stripping_keeps_other_members, stripping_leaves_no_encrypted_content, summary_wish_is_gone,
    summary_wish_leaves_the_rest,
};
use crate::request::prepared;
use crate::rewrite::{
    asks_for_encrypted_content, carries_encrypted_content, is_reasoning, stateless,
    with_unbound_input, without_summary_wish,
};
use crate::upstream::Failure;

verus! {

/// The state after all of these incidents, if each was due and none ended the exchange.
pub open spec fn run(state: ExchangeState, incidents: Seq<Incident>) -> Option<ExchangeState>
    decreases incidents.len(),
{
    if incidents.len() == 0 {
        Some(state)
    } else {
        match run(state, incidents.drop_last()) {
            Some(before) => if is_due(before, incidents.last()) && !(next(
                before,
                incidents.last(),
            ).1 is Fail) {
                Some(next(before, incidents.last()).0)
            } else {
                None
            },
            None => None,
        }
    }
}

/// How often these incidents had the request sent again.
pub open spec fn resends(state: ExchangeState, incidents: Seq<Incident>) -> nat
    decreases incidents.len(),
{
    if incidents.len() == 0 {
        0
    } else {
        let earlier = resends(state, incidents.drop_last());
        match run(state, incidents.drop_last()) {
            Some(before) => if next(before, incidents.last()).1 is Forward {
                earlier + 1
            } else {
                earlier
            },
            None => earlier,
        }
    }
}

/// One for what is so, and zero for what is not.
spec fn count(so: bool) -> nat {
    if so {
        1
    } else {
        0
    }
}

proof fn lemma_counts(body: JsonTree, max_retries: nat, incidents: Seq<Incident>)
    ensures
        run(beginning(body, max_retries), incidents) matches Some(state) ==> {
            &&& state.max_retries == max_retries
            &&& state.retry_count <= max_retries
            &&& resends(beginning(body, max_retries), incidents) + count(state.resetting)
                == state.retry_count + count(state.encrypted_retried) + count(
                state.summary_retried,
            )
            &&& incidents.len() + count(state.resetting) == 2 * state.retry_count + count(
                state.encrypted_retried,
            ) + count(state.summary_retried)
        },
    decreases incidents.len(),
{
    if incidents.len() > 0 {
        lemma_counts(body, max_retries, incidents.drop_last());
    }
}

/// Every exchange ends: however upstream behaves, the request is sent again at most once for each
/// reset that is allowed, once after a refusal of encrypted content, and once after a refusal of
/// summaries.
pub proof fn resends_are_bounded(body: JsonTree, max_retries: nat, incidents: Seq<Incident>)
    requires
        run(beginning(body, max_retries), incidents) is Some,
    ensures
        resends(beginning(body, max_retries), incidents) <= max_retries + 2,
        incidents.len() <= 2 * max_retries + 2,
{
    lemma_counts(body, max_retries, incidents);
}

/// The tunnel is reset for as many rate limits as the settings allow, and the resets are numbered
/// from zero; one more rate limit ends the exchange.
pub proof fn resets_are_bounded(body: JsonTree, max_retries: nat, incidents: Seq<Incident>)
    requires
        run(beginning(body, max_retries), incidents) is Some,
    ensures
        ({
            let state = run(beginning(body, max_retries), incidents)->0;
            next(state, Incident::Upstream(Failure::RateLimited)).1 == if state.retry_count
                < max_retries {
                Move::ResetWarp { attempt: state.retry_count }
            } else {
                Move::Fail("Rate limit exceeded after WARP resets"@)
            }
        }),
        run(beginning(body, max_retries), incidents)->0.retry_count <= max_retries,
{
    lemma_counts(body, max_retries, incidents);
}

/// The request that an exchange sends, after the refusals that it has met.
pub open spec fn sent_body(
    body: JsonTree,
    encrypted_retried: bool,
    summary_retried: bool,
) -> JsonTree {
    let stripped = if encrypted_retried {
        with_unbound_input(body)
    } else {
        body
    };
    if summary_retried {
        without_summary_wish(stripped)
    } else {
        stripped
    }
}

/// What an exchange sends depends on which refusals it has met, and on nothing else: rate limits
/// leave the request as it is, and the order of the refusals does not matter.
pub proof fn only_refusals_change_the_request(
    body: JsonTree,
    max_retries: nat,
    incidents: Seq<Incident>,
)
    ensures
        run(beginning(body, max_retries), incidents) matches Some(state) ==> {
            &&& state.body == sent_body(body, state.encrypted_retried, state.summary_retried)
            &&& state.encrypted_retried == incidents.contains(
                Incident::Upstream(Failure::EncryptedContent),
            )
            &&& state.summary_retried == incidents.contains(
                Incident::Upstream(Failure::SummaryVerification),
            )
        },
    decreases incidents.len(),
{
    if incidents.len() > 0 {
        let earlier = incidents.drop_last();
        only_refusals_change_the_request(body, max_retries, earlier);
        stripping_and_summary_wish_commute(body);
        assert forall|incident: Incident| #[trigger] incidents.contains(incident) == (
        earlier.contains(incident) || incidents.last() == incident) by {
            if incidents.contains(incident) {
                let i = incidents.index_of(incident);
                if i < earlier.len() {
                    assert(earlier[i] == incident);
                }
            }
            if earlier.contains(incident) {
                let i = earlier.index_of(incident);
                assert(incidents[i] == incident);
            }
            assert(incidents[incidents.len() - 1] == incidents.last());
        }
    }
}

/// The request is sent again once after a refusal of encrypted content: a second such refusal ends
/// the exchange, whatever came between.
pub proof fn encrypted_content_is_retried_once(
    body: JsonTree,
    max_retries: nat,
    incidents: Seq<Incident>,
)
    requires
        run(beginning(body, max_retries), incidents) is Some,
        incidents.contains(Incident::Upstream(Failure::EncryptedContent)),
    ensures
        next(
            run(beginning(body, max_retries), incidents)->0,
            Incident::Upstream(Failure::EncryptedContent),
        ).1 == Move::Fail("Upstream encrypted_content error persisted after retry"@),
{
    only_refusals_change_the_request(body, max_retries, incidents);
}

/// The request is sent again once after a refusal of summaries: a second such refusal ends the
/// exchange, whatever came between.
pub proof fn summaries_are_retried_once(
    body: JsonTree,
    max_retries: nat,
    incidents: Seq<Incident>,
)
    requires
        run(beginning(body, max_retries), incidents) is Some,
        incidents.contains(Incident::Upstream(Failure::SummaryVerification)),
    ensures
        next(
            run(beginning(body, max_retries), incidents)->0,
            Incident::Upstream(Failure::SummaryVerification),
        ).1 == Move::Fail(
            "Upstream reasoning-summary verification error persisted after retry"@,
        ),
{
    only_refusals_change_the_request(body, max_retries, incidents);
}

/// After a refusal of encrypted content the request has none; after a refusal of summaries it asks
/// for none.
pub proof fn refused_parts_are_not_sent_again(
    body: JsonTree,
    max_retries: nat,
    incidents: Seq<Incident>,
)
    requires
        run(beginning(body, max_retries), incidents) is Some,
    ensures
        incidents.contains(Incident::Upstream(Failure::EncryptedContent))
            ==> !carries_encrypted_content(run(beginning(body, max_retries), incidents)->0.body),
        incidents.contains(Incident::Upstream(Failure::SummaryVerification)) ==> (run(
            beginning(body, max_retries),
            incidents,
        )->0.body.field("reasoning"@) matches Some(JsonTree::Object(members))
            ==> !members.dom().contains("summary"@)),
{
    only_refusals_change_the_request(body, max_retries, incidents);
    lemma_names_differ();
    stripping_leaves_no_encrypted_content(body);
    summary_wish_leaves_the_rest(with_unbound_input(body), "input"@);
    summary_wish_is_gone(with_unbound_input(body));
    summary_wish_is_gone(body);
}

/// A request that replays no encrypted content reaches upstream as it came, each time that it is
/// sent, unless upstream refuses encrypted content or summaries.
pub proof fn clean_requests_are_sent_as_they_came(
    body: JsonTree,
    max_retries: nat,
    incidents: Seq<Incident>,
)
    requires
        !carries_encrypted_content(body),
        run(beginning(prepared(body), max_retries), incidents) is Some,
        !incidents.contains(Incident::Upstream(Failure::EncryptedContent)),
        !incidents.contains(Incident::Upstream(Failure::SummaryVerification)),
    ensures
        run(beginning(prepared(body), max_retries), incidents)->0.body == body,
{
    clean_requests_pass_untouched(body);
    only_refusals_change_the_request(prepared(body), max_retries, incidents);
}

/// A request that replays encrypted content is sent without it every time, whatever upstream does:
/// with storing off, without a wish for encrypted reasoning, and with reasoning items that have
/// neither `encrypted_content` nor `id`.
pub proof fn replays_are_always_sent_clean(
    body: JsonTree,
    max_retries: nat,
    incidents: Seq<Incident>,
)
    requires
        carries_encrypted_content(body),
    ensures
        run(beginning(prepared(body), max_retries), incidents) matches Some(state) ==> {
            &&& state.body.field("store"@) == Some(JsonTree::Bool(false))
            &&& state.body.field("include"@) matches Some(JsonTree::Array(entries)) ==> forall|
                i: int,
            |
                0 <= i < entries.len() ==> !asks_for_encrypted_content(#[trigger] entries[i])
            &&& state.body.field("input"@) matches Some(JsonTree::Array(items)) ==> forall|i: int|
                0 <= i < items.len() && is_reasoning(#[trigger] items[i]) ==> items[i].field(
                    "encrypted_content"@,
                ) is None && items[i].field("id"@) is None
            &&& !carries_encrypted_content(state.body)
        },
{
    let first = prepared(body);
    lemma_names_differ();
    only_refusals_change_the_request(first, max_retries, incidents);
    stripping_a_prepared_replay_changes_nothing(body);
    stateless_requests_ask_for_summaries(body);
    stripping_leaves_no_encrypted_content(stateless(body));
    stripping_keeps_other_members(stateless(body), "store"@);
    stripping_keeps_other_members(stateless(body), "include"@);
    summary_wish_leaves_the_rest(first, "store"@);
    summary_wish_leaves_the_rest(first, "include"@);
    summary_wish_leaves_the_rest(first, "input"@);
}

} // verus!
