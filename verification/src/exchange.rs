//! One exchange with upstream: what is done after each answer, until one can be passed on.

use vstd::prelude::*;

use crate::json::{Json, JsonTree};
use crate::rewrite::{
    strip_encrypted_content_from_input, strip_reasoning_summary, with_unbound_input,
    without_summary_wish,
};
use crate::text::concat;
use crate::upstream::{Failure, ProxyError};

verus! {

/// An exchange with upstream in progress.
#[derive(Debug)]
pub struct Exchange {
    body: Json,
    max_retries: u32,
    retry_count: u32,
    encrypted_retried: bool,
    summary_retried: bool,
    resetting: bool,
}

/// What happened since the last action.
#[derive(Debug)]
pub enum Event {
    /// Upstream was asked and gave no answer that can be passed on.
    Upstream(ProxyError),
    /// The WARP tunnel was to be reset; whether that worked.
    WarpReset(bool),
}

/// What to do next.
#[derive(Debug)]
pub enum Action {
    /// Send the request to upstream.
    Forward,
    /// Reset the WARP tunnel; earlier resets of this exchange are counted.
    ResetWarp { attempt: u32 },
    /// Report this error to the caller.
    Fail(String),
}

/// The state of an exchange.
pub struct ExchangeState {
    /// The request that is sent next.
    pub body: JsonTree,
    /// How many rate limits are met with a reset.
    pub max_retries: nat,
    /// How many rate limits upstream reported.
    pub retry_count: nat,
    /// Whether the request was stripped after a refusal of encrypted content.
    pub encrypted_retried: bool,
    /// Whether the wish for a summary was taken out after a refusal of summaries.
    pub summary_retried: bool,
    /// Whether a reset of the tunnel is going on.
    pub resetting: bool,
}

/// What an [`Event`] says.
pub enum Incident {
    Upstream(Failure),
    WarpReset(bool),
}

/// What an [`Action`] says.
pub enum Move {
    Forward,
    ResetWarp { attempt: nat },
    Fail(Seq<char>),
}

impl View for Exchange {
    type V = ExchangeState;

    closed spec fn view(&self) -> ExchangeState {
        ExchangeState {
            body: self.body@,
            max_retries: self.max_retries as nat,
            retry_count: self.retry_count as nat,
            encrypted_retried: self.encrypted_retried,
            summary_retried: self.summary_retried,
            resetting: self.resetting,
        }
    }
}

impl View for Event {
    type V = Incident;

    open spec fn view(&self) -> Incident {
        match *self {
            Event::Upstream(error) => Incident::Upstream(error@),
            Event::WarpReset(worked) => Incident::WarpReset(worked),
        }
    }
}

impl View for Action {
    type V = Move;

    open spec fn view(&self) -> Move {
        match *self {
            Action::Forward => Move::Forward,
            Action::ResetWarp { attempt } => Move::ResetWarp { attempt: attempt as nat },
            Action::Fail(message) => Move::Fail(message@),
        }
    }
}

/// The state in which an exchange begins; its first action is to send the request.
pub open spec fn beginning(body: JsonTree, max_retries: nat) -> ExchangeState {
    ExchangeState {
        body,
        max_retries,
        retry_count: 0,
        encrypted_retried: false,
        summary_retried: false,
        resetting: false,
    }
}

/// The outcome of a reset is reported while one is going on, and at no other time.
pub open spec fn is_due(state: ExchangeState, incident: Incident) -> bool {
    state.resetting <==> incident is WarpReset
}

/// The state and the move that follow what happened.
pub open spec fn next(state: ExchangeState, incident: Incident) -> (ExchangeState, Move) {
    match incident {
        Incident::Upstream(Failure::RateLimited) => {
            let counted = ExchangeState { retry_count: state.retry_count + 1, ..state };
            if counted.retry_count > state.max_retries {
                (counted, Move::Fail("Rate limit exceeded after WARP resets"@))
            } else {
                (
                    ExchangeState { resetting: true, ..counted },
                    Move::ResetWarp { attempt: state.retry_count },
                )
            }
        },
        Incident::WarpReset(worked) => {
            let done = ExchangeState { resetting: false, ..state };
            if worked {
                (done, Move::Forward)
            } else {
                (done, Move::Fail("WARP reset failed, rate limit still active"@))
            }
        },
        Incident::Upstream(Failure::EncryptedContent) => if state.encrypted_retried {
            (state, Move::Fail("Upstream encrypted_content error persisted after retry"@))
        } else {
            (
                ExchangeState {
                    body: with_unbound_input(state.body),
                    encrypted_retried: true,
                    ..state
                },
                Move::Forward,
            )
        },
        Incident::Upstream(Failure::SummaryVerification) => if state.summary_retried {
            (
                state,
                Move::Fail(
                    "Upstream reasoning-summary verification error persisted after retry"@,
                ),
            )
        } else {
            (
                ExchangeState {
                    body: without_summary_wish(state.body),
                    summary_retried: true,
                    ..state
                },
                Move::Forward,
            )
        },
        Incident::Upstream(Failure::RequestFailed(message)) => (
            state,
            Move::Fail("Upstream error: "@ + message),
        ),
    }
}

impl Exchange {
    /// Begins an exchange with this request. It is to be sent first.
    pub fn new(body: Json, max_retries: u32) -> (exchange: Exchange)
        ensures
            exchange@ == beginning(body@, max_retries as nat),
    {
        Exchange {
            body,
            max_retries,
            retry_count: 0,
            encrypted_retried: false,
            summary_retried: false,
            resetting: false,
        }
    }

    /// The request as it is to be sent now.
    pub fn body(&self) -> (body: &Json)
        ensures
            body@ == self@.body,
    {
        &self.body
    }

    /// How many rate limits upstream reported in this exchange.
    pub fn retry_count(&self) -> (count: u32)
        ensures
            count == self@.retry_count,
    {
        self.retry_count
    }

    /// Decides what to do after what happened. The count of rate limits must not run over.
    pub fn step(&mut self, event: Event) -> (action: Action)
        requires
            is_due(old(self)@, event@),
            event@ == Incident::Upstream(Failure::RateLimited) ==> old(self)@.retry_count
                < u32::MAX,
        ensures
            (final(self)@, action@) == next(old(self)@, event@),
    {
        match event {
            Event::Upstream(ProxyError::RateLimited) => {
                self.retry_count = self.retry_count + 1;
                if self.retry_count > self.max_retries {
                    return Action::Fail("Rate limit exceeded after WARP resets".to_string());
                }
                self.resetting = true;
                Action::ResetWarp { attempt: self.retry_count - 1 }
            },
            Event::WarpReset(worked) => {
                self.resetting = false;
                if !worked {
                    return Action::Fail("WARP reset failed, rate limit still active".to_string());
                }
                Action::Forward
            },
            Event::Upstream(ProxyError::EncryptedContentError) => {
                if self.encrypted_retried {
                    return Action::Fail(
                        "Upstream encrypted_content error persisted after retry".to_string(),
                    );
                }
                self.encrypted_retried = true;
                strip_encrypted_content_from_input(&mut self.body);
                Action::Forward
            },
            Event::Upstream(ProxyError::SummaryVerificationError) => {
                if self.summary_retried {
                    return Action::Fail(
                        "Upstream reasoning-summary verification error persisted after retry"
                            .to_string(),
                    );
                }
                self.summary_retried = true;
                strip_reasoning_summary(&mut self.body);
                Action::Forward
            },
            Event::Upstream(ProxyError::RequestFailed(message)) => {
                Action::Fail(concat("Upstream error: ", message.as_str()))
            },
        }
    }
}

} // verus!
