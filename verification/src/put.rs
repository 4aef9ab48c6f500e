//! Appending an event to a log stream, with one retry on a stale sequence token.

use vstd::prelude::*;
use vstd::string::*;

use crate::cache;
use crate::cache::{Caches, CachesView};
use crate::remote;
use crate::remote::{LogEvent, LogEventView, Reply, ReplyView, Request, RequestView};

verus! {

/// The call whose reply is awaited.
#[derive(Clone, Copy, Debug, PartialEq, Eq, Structural)]
pub enum PutPhase {
    /// The event has been sent with the stored token.
    FirstAttempt,
    /// The stored token was refused, and the stream is listed for the latest one.
    TokenListing,
    /// The event has been sent once more.
    SecondAttempt,
}

/// The work on an event, while a reply is awaited.
#[derive(Debug)]
pub struct Putting {
    pub group: String,
    pub stream: String,
    pub event: LogEvent,
    pub phase: PutPhase,
}

/// The model of [`Putting`].
pub struct PuttingView {
    pub group: Seq<char>,
    pub stream: Seq<char>,
    pub event: LogEventView,
    pub phase: PutPhase,
}

impl View for Putting {
    type V = PuttingView;

    open spec fn view(&self) -> PuttingView {
        PuttingView {
            group: self.group@,
            stream: self.stream@,
            event: self.event@,
            phase: self.phase,
        }
    }
}

/// What is to be done next.
#[derive(Debug)]
pub enum PutStep {
    /// Make a call, and go on with its reply.
    Call { next: Putting, request: Request },
    /// The event has been taken.
    Delivered,
    /// The event has not been taken.
    Failed,
}

/// The model of a [`PutStep`].
#[verifier::ext_equal]
pub enum PutStepView {
    Call { next: PuttingView, request: RequestView },
    Delivered,
    Failed,
}

impl View for PutStep {
    type V = PutStepView;

    open spec fn view(&self) -> PutStepView {
        match self {
            PutStep::Call { next, request } => PutStepView::Call {
                next: next@,
                request: request@,
            },
            PutStep::Delivered => PutStepView::Delivered,
            PutStep::Failed => PutStepView::Failed,
        }
    }
}

impl PuttingView {
    /// The call that sends the event, with the given token.
    pub open spec fn put_with(self, sequence_token: Option<Seq<char>>) -> RequestView {
        RequestView::PutLogEvents {
            group: self.group,
            stream: self.stream,
            sequence_token,
            events: seq![self.event],
        }
    }

    /// The key of the stream in the caches.
    pub open spec fn key(self) -> Seq<char> {
        cache::key_of(self.group, self.stream)
    }
}

/// The first step: the event is sent with the token that is stored for the stream.
pub open spec fn put_start(
    caches: CachesView,
    group: Seq<char>,
    stream: Seq<char>,
    event: LogEventView,
) -> PutStepView {
    let next = PuttingView { group, stream, event, phase: PutPhase::FirstAttempt };
    PutStepView::Call { next, request: next.put_with(caches.token(next.key())) }
}

/// The caches and the step that follow a reply. Where the latest token cannot be listed, the event
/// is sent without one. A reply that does not belong to an attempt counts as a failure of it.
pub open spec fn put_next(state: PuttingView, caches: CachesView, reply: ReplyView) -> (
    CachesView,
    PutStepView,
) {
    let listing = PuttingView { phase: PutPhase::TokenListing, ..state };
    let again = PuttingView { phase: PutPhase::SecondAttempt, ..state };
    match (state.phase, reply) {
        (PutPhase::TokenListing, ReplyView::LogStreams(streams)) => {
            let token = remote::latest_token(streams, state.stream);
            (caches, PutStepView::Call { next: again, request: again.put_with(token) })
        },
        (PutPhase::TokenListing, _) => {
            (caches, PutStepView::Call { next: again, request: again.put_with(None) })
        },
        (_, ReplyView::Accepted(token)) => {
            (caches.with_token(state.key(), token), PutStepView::Delivered)
        },
        (PutPhase::FirstAttempt, ReplyView::InvalidSequenceToken) => {
            let request = RequestView::DescribeLogStreams {
                group: state.group,
                prefix: state.stream,
            };
            (caches, PutStepView::Call { next: listing, request })
        },
        _ => (caches, PutStepView::Failed),
    }
}

/// The call that sends events once.
pub fn put_log_events_once(
    group: String,
    stream: String,
    sequence_token: Option<String>,
    events: Vec<LogEvent>,
) -> (request: Request)
    ensures
        request@ == (RequestView::PutLogEvents {
            group: group@,
            stream: stream@,
            sequence_token: sequence_token.deep_view(),
            events: events@.map_values(|event: LogEvent| event@),
        }),
{
    Request::PutLogEvents { group, stream, sequence_token, events }
}

/// Begins to append an event: sends it with the token that is stored for the stream.
pub fn put_log_events_with_retry(
    caches: &Caches,
    group: String,
    stream: String,
    log_event: LogEvent,
) -> (step: PutStep)
    ensures
        step@ == put_start(caches@, group@, stream@, log_event@),
{
    let key = cache::stream_key(group.as_str(), stream.as_str());
    let token = caches.sequence_token(key.as_str());
    let next = Putting { group, stream, event: log_event, phase: PutPhase::FirstAttempt };
    let request = next.attempt(token);
    PutStep::Call { next, request }
}

impl Putting {
    /// The call that sends the event, with the given token.
    fn attempt(&self, sequence_token: Option<String>) -> (request: Request)
        ensures
            request@ == self@.put_with(sequence_token.deep_view()),
    {
        let mut events: Vec<LogEvent> = Vec::new();
        events.push(self.event.clone());
        let request = put_log_events_once(
            self.group.clone(),
            self.stream.clone(),
            sequence_token,
            events,
        );
        assert(request@ =~= self@.put_with(sequence_token.deep_view()));
        request
    }

    /// Sends the event once more, with the given token.
    fn retry(self, sequence_token: Option<String>) -> (step: PutStep)
        ensures
            ({
                let again = PuttingView { phase: PutPhase::SecondAttempt, ..self@ };
                step@ == PutStepView::Call {
                    next: again,
                    request: again.put_with(sequence_token.deep_view()),
                }
            }),
    {
        let next = Putting { phase: PutPhase::SecondAttempt, ..self };
        let request = next.attempt(sequence_token);
        PutStep::Call { next, request }
    }

    /// Goes on with the reply to the awaited call.
    pub fn resume(self, caches: &mut Caches, reply: Reply) -> (step: PutStep)
        ensures
            (final(caches)@, step@) == put_next(self@, old(caches)@, reply@),
    {
        match (self.phase, reply) {
            (PutPhase::TokenListing, Reply::LogStreams(streams)) => {
                let fresh = remote::fetch_latest_stream_token(&streams, &self.stream);
                self.retry(fresh)
            },
            (PutPhase::TokenListing, _) => self.retry(None),
            (_, Reply::Accepted(new_tok)) => {
                let key = cache::stream_key(self.group.as_str(), self.stream.as_str());
                caches.update_sequence_token(key, new_tok);
                PutStep::Delivered
            },
            (PutPhase::FirstAttempt, Reply::InvalidSequenceToken) => {
                let request = Request::DescribeLogStreams {
                    group: self.group.clone(),
                    prefix: self.stream.clone(),
                };
                let next = Putting { phase: PutPhase::TokenListing, ..self };
                PutStep::Call { next, request }
            },
            _ => PutStep::Failed,
        }
    }
}

/// The model of a step holds what the step says.
pub proof fn law_put_step_model(step: PutStep)
    ensures
        step matches PutStep::Call { next, request } ==> step@ == (PutStepView::Call {
            next: PuttingView {
                group: next.group@,
                stream: next.stream@,
                event: LogEventView {
                    message: next.event.message@,
                    timestamp: next.event.timestamp as int,
                },
                phase: next.phase,
            },
            request: request@,
        }),
        step is Delivered <==> step@ is Delivered,
        step is Failed <==> step@ is Failed,
{
}

} // verus!
