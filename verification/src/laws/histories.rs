//! What an exchange does, seen from what happened in it.

use vstd::prelude::*;

use crate::exchange::{beginning, is_due, next, Action, Event, ExchangeState, Incident, Move};
use crate::json::JsonTree;
use crate::laws::exchanges::{only_refusals_change_the_request, run};
use crate::rewrite::{with_unbound_input, without_summary_wish};
use crate::upstream::{Failure, ProxyError};

verus! {

/// How many of these incidents are rate limits.
pub open spec fn rate_limits(incidents: Seq<Incident>) -> nat
    decreases incidents.len(),
{
    if incidents.len() == 0 {
        0
    } else {
        rate_limits(incidents.drop_last()) + if incidents.last() == Incident::Upstream(
            Failure::RateLimited,
        ) {
            1nat
        } else {
            0nat
        }
    }
}

proof fn lemma_history(body: JsonTree, max_retries: nat, incidents: Seq<Incident>)
    ensures
        run(beginning(body, max_retries), incidents) matches Some(state) ==> {
            &&& state.max_retries == max_retries
            &&& state.retry_count == rate_limits(incidents)
            &&& state.resetting <==> incidents.len() > 0 && incidents.last() == Incident::Upstream(
                Failure::RateLimited,
            )
        },
    decreases incidents.len(),
{
    if incidents.len() > 0 {
        lemma_history(body, max_retries, incidents.drop_last());
    }
}

/// An exchange begins with the request as it was given, and sends that first.
pub proof fn exchanges_begin_with_the_request(body: JsonTree, max_retries: nat)
    ensures
        run(beginning(body, max_retries), Seq::empty()) matches Some(state) && state.body == body,
        beginning(body, max_retries).body == body,
        beginning(body, max_retries).max_retries == max_retries,
        beginning(body, max_retries).retry_count == 0,
        !beginning(body, max_retries).encrypted_retried,
        !beginning(body, max_retries).summary_retried,
        !beginning(body, max_retries).resetting,
{
}

/// Right after a rate limit that did not end the exchange, the outcome of the reset is awaited; at
/// every other time, an answer of upstream.
pub proof fn what_is_awaited(
    body: JsonTree,
    max_retries: nat,
    incidents: Seq<Incident>,
    failure: Failure,
    worked: bool,
)
    requires
        run(beginning(body, max_retries), incidents) is Some,
    ensures
        ({
            let state = run(beginning(body, max_retries), incidents)->0;
            let limited = incidents.len() > 0 && incidents.last() == Incident::Upstream(
                Failure::RateLimited,
            );
            &&& is_due(state, Incident::WarpReset(worked)) == limited
            &&& is_due(state, Incident::Upstream(failure)) == !limited
        }),
{
    lemma_history(body, max_retries, incidents);
}

/// The first refusal of encrypted content is always met by sending the request again, stripped,
/// whatever the request holds and whatever happened before. Every later one ends the exchange.
pub proof fn the_first_refusal_of_encrypted_content_is_retried(
    body: JsonTree,
    max_retries: nat,
    incidents: Seq<Incident>,
)
    requires
        run(beginning(body, max_retries), incidents) is Some,
    ensures
        ({
            let state = run(beginning(body, max_retries), incidents)->0;
            let refused = Incident::Upstream(Failure::EncryptedContent);
            if incidents.contains(refused) {
                next(state, refused).1 == Move::Fail(
                    "Upstream encrypted_content error persisted after retry"@,
                )
            } else {
                &&& next(state, refused).1 == Move::Forward
                &&& next(state, refused).0.body == with_unbound_input(state.body)
                &&& next(state, refused).0.retry_count == state.retry_count
                &&& next(state, refused).0.summary_retried == state.summary_retried
            }
        }),
{
    only_refusals_change_the_request(body, max_retries, incidents);
}

/// The first refusal of summaries is always met by sending the request again, without the wish for
/// one, whatever the request holds and whatever happened before. Every later one ends the exchange.
pub proof fn the_first_refusal_of_summaries_is_retried(
    body: JsonTree,
    max_retries: nat,
    incidents: Seq<Incident>,
)
    requires
        run(beginning(body, max_retries), incidents) is Some,
    ensures
        ({
            let state = run(beginning(body, max_retries), incidents)->0;
            let refused = Incident::Upstream(Failure::SummaryVerification);
            if incidents.contains(refused) {
                next(state, refused).1 == Move::Fail(
                    "Upstream reasoning-summary verification error persisted after retry"@,
                )
            } else {
                &&& next(state, refused).1 == Move::Forward
                &&& next(state, refused).0.body == without_summary_wish(state.body)
                &&& next(state, refused).0.retry_count == state.retry_count
                &&& next(state, refused).0.encrypted_retried == state.encrypted_retried
            }
        }),
{
    only_refusals_change_the_request(body, max_retries, incidents);
}

/// A rate limit is met by a reset as long as fewer came before than are allowed, and the reset has
/// the number of those that came before. The next one ends the exchange. The request stays.
pub proof fn rate_limits_are_met_by_resets(
    body: JsonTree,
    max_retries: nat,
    incidents: Seq<Incident>,
)
    requires
        run(beginning(body, max_retries), incidents) is Some,
    ensures
        ({
            let state = run(beginning(body, max_retries), incidents)->0;
            let limited = Incident::Upstream(Failure::RateLimited);
            &&& next(state, limited).1 == if rate_limits(incidents) < max_retries {
                Move::ResetWarp { attempt: rate_limits(incidents) }
            } else {
                Move::Fail("Rate limit exceeded after WARP resets"@)
            }
            &&& next(state, limited).0.body == state.body
        }),
{
    lemma_history(body, max_retries, incidents);
}

/// After a reset that worked the request is sent again as it was; one that failed ends the
/// exchange.
pub proof fn resets_lead_to_sending_again(
    body: JsonTree,
    max_retries: nat,
    incidents: Seq<Incident>,
)
    requires
        run(beginning(body, max_retries), incidents) is Some,
    ensures
        ({
            let state = run(beginning(body, max_retries), incidents)->0;
            &&& next(state, Incident::WarpReset(true)).1 == Move::Forward
            &&& next(state, Incident::WarpReset(true)).0.body == state.body
            &&& next(state, Incident::WarpReset(false)).1 == Move::Fail(
                "WARP reset failed, rate limit still active"@,
            )
        }),
{
}

/// Any other failure ends the exchange at once, and is reported with its message.
pub proof fn other_failures_are_reported(state: ExchangeState, message: Seq<char>)
    ensures
        next(state, Incident::Upstream(Failure::RequestFailed(message))).1 == Move::Fail(
            "Upstream error: "@ + message,
        ),
{
}

/// An exchange goes on after everything that is awaited and does not end it, by what the laws above
/// say: after a first refusal of either kind, after a rate limit while resets are left, and after a
/// reset that worked.
pub proof fn exchanges_go_on(
    body: JsonTree,
    max_retries: nat,
    incidents: Seq<Incident>,
    incident: Incident,
)
    requires
        run(beginning(body, max_retries), incidents) is Some,
    ensures
        ({
            let limited = incidents.len() > 0 && incidents.last() == Incident::Upstream(
                Failure::RateLimited,
            );
            let later = run(beginning(body, max_retries), incidents.push(incident));
            later is Some <==> match incident {
                Incident::WarpReset(worked) => limited && worked,
                Incident::Upstream(Failure::RateLimited) => !limited && rate_limits(incidents)
                    < max_retries,
                Incident::Upstream(Failure::EncryptedContent) => !limited && !incidents.contains(
                    incident,
                ),
                Incident::Upstream(Failure::SummaryVerification) => !limited && !incidents.contains(
                    incident,
                ),
                Incident::Upstream(Failure::RequestFailed(_)) => false,
            }
        }),
{
    assert(incidents.push(incident).drop_last() =~= incidents);
    lemma_history(body, max_retries, incidents);
    only_refusals_change_the_request(body, max_retries, incidents);
}

/// Events and actions say what they are.
pub proof fn events_and_actions_say_what_they_are(
    error: ProxyError,
    worked: bool,
    attempt: u32,
    message: String,
)
    ensures
        Event::Upstream(error)@ == Incident::Upstream(error@),
        Event::WarpReset(worked)@ == Incident::WarpReset(worked),
        Action::Forward@ == Move::Forward,
        (Action::ResetWarp { attempt })@ == (Move::ResetWarp { attempt: attempt as nat }),
        Action::Fail(message)@ == Move::Fail(message@),
{
}

} // verus!
