//! Making sure that a log group and a log stream in it exist.
//!
//! A group or stream that the caches do not know is listed, created where the listing lacks it,
//! and entered into the caches. The group comes first.

use vstd::prelude::*;
use vstd::string::*;

use crate::cache;
use crate::cache::{Caches, CachesView};
use crate::remote;
use crate::remote::{Reply, ReplyView, Request, RequestView};

verus! {

/// The call whose reply is awaited.
#[derive(Clone, Copy, Debug, PartialEq, Eq, Structural)]
pub enum EnsurePhase {
    GroupListing,
    GroupCreation,
    StreamListing,
    StreamCreation,
}

/// The work on a group and a stream, while a reply is awaited.
#[derive(Debug)]
pub struct Ensuring {
    pub group: String,
    pub stream: String,
    pub phase: EnsurePhase,
}

/// The model of [`Ensuring`].
pub struct EnsuringView {
    pub group: Seq<char>,
    pub stream: Seq<char>,
    pub phase: EnsurePhase,
}

impl View for Ensuring {
    type V = EnsuringView;

    open spec fn view(&self) -> EnsuringView {
        EnsuringView { group: self.group@, stream: self.stream@, phase: self.phase }
    }
}

/// What is to be done next.
#[derive(Debug)]
pub enum EnsureStep {
    /// Make a call, and go on with its reply.
    Call { next: Ensuring, request: Request },
    /// Group and stream exist.
    Ready { group: String, stream: String },
    /// A call has failed.
    Failed,
}

/// The model of an [`EnsureStep`].
#[verifier::ext_equal]
pub enum EnsureStepView {
    Call { next: EnsuringView, request: RequestView },
    Ready { group: Seq<char>, stream: Seq<char> },
    Failed,
}

impl View for EnsureStep {
    type V = EnsureStepView;

    open spec fn view(&self) -> EnsureStepView {
        match self {
            EnsureStep::Call { next, request } => EnsureStepView::Call {
                next: next@,
                request: request@,
            },
            EnsureStep::Ready { group, stream } => EnsureStepView::Ready {
                group: group@,
                stream: stream@,
            },
            EnsureStep::Failed => EnsureStepView::Failed,
        }
    }
}

impl EnsuringView {
    /// The call whose reply is awaited: in every phase it is fixed by the group and the stream.
    pub open spec fn awaited(self) -> RequestView {
        match self.phase {
            EnsurePhase::GroupListing => RequestView::DescribeLogGroups { prefix: self.group },
            EnsurePhase::GroupCreation => RequestView::CreateLogGroup { group: self.group },
            EnsurePhase::StreamListing => RequestView::DescribeLogStreams {
                group: self.group,
                prefix: self.stream,
            },
            EnsurePhase::StreamCreation => RequestView::CreateLogStream {
                group: self.group,
                stream: self.stream,
            },
        }
    }
}

/// The step that makes the call of a phase.
pub open spec fn call_in(
    group: Seq<char>,
    stream: Seq<char>,
    phase: EnsurePhase,
) -> EnsureStepView {
    let next = EnsuringView { group, stream, phase };
    EnsureStepView::Call { next, request: next.awaited() }
}

/// The first step: what the caches know is not looked up.
pub open spec fn ensure_start(
    caches: CachesView,
    group: Seq<char>,
    stream: Seq<char>,
) -> EnsureStepView {
    if caches.knows_group(group) {
        ensure_stream(caches, group, stream)
    } else {
        call_in(group, stream, EnsurePhase::GroupListing)
    }
}

/// The step once the group exists.
pub open spec fn ensure_stream(
    caches: CachesView,
    group: Seq<char>,
    stream: Seq<char>,
) -> EnsureStepView {
    if caches.knows_stream(cache::key_of(group, stream)) {
        EnsureStepView::Ready { group, stream }
    } else {
        call_in(group, stream, EnsurePhase::StreamListing)
    }
}

/// The caches and the step that follow a reply. A reply that does not belong to the awaited call
/// counts as a failure.
pub open spec fn ensure_next(
    state: EnsuringView,
    caches: CachesView,
    reply: ReplyView,
) -> (CachesView, EnsureStepView) {
    let (group, stream) = (state.group, state.stream);
    let group_known = caches.with_group(group);
    let stream_known = caches.with_stream(cache::key_of(group, stream));
    match (state.phase, reply) {
        (EnsurePhase::GroupListing, ReplyView::LogGroups(groups)) => {
            if remote::lists_group(groups, group) {
                (group_known, ensure_stream(group_known, group, stream))
            } else {
                (caches, call_in(group, stream, EnsurePhase::GroupCreation))
            }
        },
        (EnsurePhase::GroupCreation, ReplyView::Created) => {
            (group_known, ensure_stream(group_known, group, stream))
        },
        (EnsurePhase::StreamListing, ReplyView::LogStreams(streams)) => {
            if remote::lists_stream(streams, stream) {
                (stream_known, EnsureStepView::Ready { group, stream })
            } else {
                (caches, call_in(group, stream, EnsurePhase::StreamCreation))
            }
        },
        (EnsurePhase::StreamCreation, ReplyView::Created) => {
            (stream_known, EnsureStepView::Ready { group, stream })
        },
        _ => (caches, EnsureStepView::Failed),
    }
}

/// Begins to make sure that the group exists: returns the call that lists it, or nothing where the
/// caches know the group.
pub fn ensure_log_group_exists(caches: &Caches, group: &String) -> (request: Option<Request>)
    ensures
        match request {
            None => caches@.knows_group(group@),
            Some(call) => !caches@.knows_group(group@) && call@
                == (RequestView::DescribeLogGroups { prefix: group@ }),
        },
{
    if caches.knows_group(group.as_str()) {
        None
    } else {
        Some(Request::DescribeLogGroups { prefix: group.clone() })
    }
}

/// Begins to make sure that the group and the stream exist.
pub fn ensure_log_stream_exists(caches: &Caches, group: String, stream: String) -> (step:
    EnsureStep)
    ensures
        step@ == ensure_start(caches@, group@, stream@),
{
    match ensure_log_group_exists(caches, &group) {
        None => stream_of_existing_group(caches, group, stream),
        Some(request) => EnsureStep::Call {
            next: Ensuring { group, stream, phase: EnsurePhase::GroupListing },
            request,
        },
    }
}

/// Goes on to the stream, once its group exists.
fn stream_of_existing_group(caches: &Caches, group: String, stream: String) -> (step: EnsureStep)
    ensures
        step@ == ensure_stream(caches@, group@, stream@),
{
    let key = cache::stream_key(group.as_str(), stream.as_str());
    if caches.knows_stream(key.as_str()) {
        EnsureStep::Ready { group, stream }
    } else {
        let request = Request::DescribeLogStreams { group: group.clone(), prefix: stream.clone() };
        EnsureStep::Call {
            next: Ensuring { group, stream, phase: EnsurePhase::StreamListing },
            request,
        }
    }
}

impl Ensuring {
    /// Goes on with the reply to the awaited call.
    pub fn resume(self, caches: &mut Caches, reply: Reply) -> (step: EnsureStep)
        ensures
            (final(caches)@, step@) == ensure_next(self@, old(caches)@, reply@),
    {
        let Ensuring { group, stream, phase } = self;
        match (phase, reply) {
            (EnsurePhase::GroupListing, Reply::LogGroups(groups)) => {
                Self::group_listed(caches, group, stream, groups)
            },
            (EnsurePhase::GroupCreation, Reply::Created) => {
                Self::group_exists(caches, group, stream)
            },
            (EnsurePhase::StreamListing, Reply::LogStreams(streams)) => {
                if remote::find_stream(&streams, &stream) {
                    Self::stream_exists(caches, group, stream)
                } else {
                    let request = Request::CreateLogStream {
                        group: group.clone(),
                        stream: stream.clone(),
                    };
                    EnsureStep::Call {
                        next: Ensuring { group, stream, phase: EnsurePhase::StreamCreation },
                        request,
                    }
                }
            },
            (EnsurePhase::StreamCreation, Reply::Created) => {
                Self::stream_exists(caches, group, stream)
            },
            _ => EnsureStep::Failed,
        }
    }

    /// Creates the group where the listing lacks it.
    fn group_listed(
        caches: &mut Caches,
        group: String,
        stream: String,
        groups: Vec<Option<String>>,
    ) -> (step: EnsureStep)
        ensures
            (final(caches)@, step@) == ensure_next(
                EnsuringView {
                    group: group@,
                    stream: stream@,
                    phase: EnsurePhase::GroupListing,
                },
                old(caches)@,
                ReplyView::LogGroups(remote::group_names(groups@)),
            ),
    {
        if remote::find_group(&groups, &group) {
            Self::group_exists(caches, group, stream)
        } else {
            let request = Request::CreateLogGroup { group: group.clone() };
            EnsureStep::Call {
                next: Ensuring { group, stream, phase: EnsurePhase::GroupCreation },
                request,
            }
        }
    }

    /// Enters the group into the caches and goes on to the stream.
    fn group_exists(caches: &mut Caches, group: String, stream: String) -> (step: EnsureStep)
        ensures
            final(caches)@ == old(caches)@.with_group(group@),
            step@ == ensure_stream(final(caches)@, group@, stream@),
    {
        caches.add_group(group.clone());
        stream_of_existing_group(caches, group, stream)
    }

    /// Enters the stream into the caches.
    fn stream_exists(caches: &mut Caches, group: String, stream: String) -> (step: EnsureStep)
        ensures
            final(caches)@ == old(caches)@.with_stream(cache::key_of(group@, stream@)),
            step@ == (EnsureStepView::Ready { group: group@, stream: stream@ }),
    {
        caches.add_stream(cache::stream_key(group.as_str(), stream.as_str()));
        EnsureStep::Ready { group, stream }
    }
}

/// The model of a step holds what the step says.
pub proof fn law_ensure_step_model(step: EnsureStep)
    ensures
        step matches EnsureStep::Call { next, request } ==> step@ == (EnsureStepView::Call {
            next: EnsuringView { group: next.group@, stream: next.stream@, phase: next.phase },
            request: request@,
        }),
        step matches EnsureStep::Ready { group, stream } ==> step@ == (EnsureStepView::Ready {
            group: group@,
            stream: stream@,
        }),
        step is Failed <==> step@ is Failed,
{
}

} // verus!
