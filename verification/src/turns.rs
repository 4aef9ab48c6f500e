//! What a delivery begins with, and what one turn of it does in each of its phases.

use vstd::prelude::*;

use crate::cache::CachesView;
use crate::delivery;
use crate::delivery::{DeliveryView, ErrorView, StepView};
use crate::ensure::{EnsurePhase, EnsuringView};
use crate::laws;
use crate::laws::Turn;
use crate::put::{PutPhase, PuttingView};
use crate::remote;
use crate::remote::{LogEventView, ReplyView, RequestView, StreamSummaryView};

verus! {

/// A delivery begins with the listing of a group that is not known, goes on to the listing of a
/// stream that is not known, and sends the message at once where both are known.
pub proof fn law_first_call(
    caches: CachesView,
    group: Seq<char>,
    stream: Seq<char>,
    message: Seq<char>,
    now: int,
)
    ensures
        ({
            let start = delivery::delivery_start(caches, group, stream, message, now);
            let key = group + "::"@ + stream;
            let event = LogEventView { message, timestamp: now };
            let group_known = caches.groups.contains_key(group) && caches.groups[group];
            let stream_known = caches.streams.contains_key(key) && caches.streams[key];
            &&& !group_known ==> start == StepView::Call {
                next: DeliveryView::Ensuring {
                    ensuring: EnsuringView { group, stream, phase: EnsurePhase::GroupListing },
                    message,
                },
                request: RequestView::DescribeLogGroups { prefix: group },
            }
            &&& group_known && !stream_known ==> start == StepView::Call {
                next: DeliveryView::Ensuring {
                    ensuring: EnsuringView { group, stream, phase: EnsurePhase::StreamListing },
                    message,
                },
                request: RequestView::DescribeLogStreams { group, prefix: stream },
            }
            &&& group_known && stream_known ==> start == StepView::Call {
                next: DeliveryView::Putting {
                    putting: PuttingView { group, stream, event, phase: PutPhase::FirstAttempt },
                },
                request: RequestView::PutLogEvents {
                    group,
                    stream,
                    sequence_token: if caches.tokens.contains_key(key) {
                        Some(caches.tokens[key])
                    } else {
                        None
                    },
                    events: seq![event],
                },
            }
        }),
{
}

/// A group that the listing names, in whichever entry, is entered as known, and the delivery goes on
/// as one that begins with it known.
pub proof fn law_listed_group(
    group: Seq<char>,
    stream: Seq<char>,
    message: Seq<char>,
    turn: Turn,
    groups: Seq<Option<Seq<char>>>,
    i: int,
)
    requires
        turn.reply == ReplyView::LogGroups(groups),
        0 <= i < groups.len(),
        groups[i] == Some(group),
    ensures
        ({
            let phase = EnsurePhase::GroupListing;
            let ensuring = EnsuringView { group, stream, phase };
            let after = laws::take_turn(DeliveryView::Ensuring { ensuring, message }, turn);
            &&& after.0 == CachesView {
                groups: turn.caches.groups.insert(group, true),
                ..turn.caches
            }
            &&& after.1 == delivery::delivery_start(after.0, group, stream, message, turn.now)
        }),
{
    assert(groups.contains(Some(group)));
}

/// A group that has been created is entered as known, and the delivery goes on as one that begins
/// with it known.
pub proof fn law_created_group(
    group: Seq<char>,
    stream: Seq<char>,
    message: Seq<char>,
    turn: Turn,
)
    requires
        turn.reply is Created,
    ensures
        ({
            let phase = EnsurePhase::GroupCreation;
            let ensuring = EnsuringView { group, stream, phase };
            let after = laws::take_turn(DeliveryView::Ensuring { ensuring, message }, turn);
            &&& after.0 == CachesView {
                groups: turn.caches.groups.insert(group, true),
                ..turn.caches
            }
            &&& after.1 == delivery::delivery_start(after.0, group, stream, message, turn.now)
        }),
{
}

/// A group that no entry of the listing names is created, whatever else is listed.
pub proof fn law_missing_group_is_created(
    group: Seq<char>,
    stream: Seq<char>,
    message: Seq<char>,
    turn: Turn,
    groups: Seq<Option<Seq<char>>>,
)
    requires
        turn.reply == ReplyView::LogGroups(groups),
        forall|i: int| 0 <= i < groups.len() ==> #[trigger] groups[i] != Some(group),
    ensures
        ({
            let phase = EnsurePhase::GroupListing;
            let ensuring = EnsuringView { group, stream, phase };
            laws::take_turn(DeliveryView::Ensuring { ensuring, message }, turn) == (
                turn.caches,
                StepView::Call {
                    next: DeliveryView::Ensuring {
                        ensuring: EnsuringView { group, stream, phase: EnsurePhase::GroupCreation },
                        message,
                    },
                    request: RequestView::CreateLogGroup { group },
                },
            )
        }),
{
}

/// A stream that the listing names, in whichever entry, is entered as known, and the message is sent,
/// stamped with the time of the turn, with the token that is stored for the stream.
pub proof fn law_listed_stream(
    group: Seq<char>,
    stream: Seq<char>,
    message: Seq<char>,
    turn: Turn,
    streams: Seq<StreamSummaryView>,
    i: int,
)
    requires
        turn.reply == ReplyView::LogStreams(streams),
        0 <= i < streams.len(),
        streams[i].name == Some(stream),
    ensures
        ({
            let phase = EnsurePhase::StreamListing;
            let ensuring = EnsuringView { group, stream, phase };
            let after = laws::take_turn(DeliveryView::Ensuring { ensuring, message }, turn);
            let key = group + "::"@ + stream;
            let event = LogEventView { message, timestamp: turn.now };
            &&& after.0 == CachesView {
                streams: turn.caches.streams.insert(key, true),
                ..turn.caches
            }
            &&& after.1 == StepView::Call {
                next: DeliveryView::Putting {
                    putting: PuttingView { group, stream, event, phase: PutPhase::FirstAttempt },
                },
                request: RequestView::PutLogEvents {
                    group,
                    stream,
                    sequence_token: if turn.caches.tokens.contains_key(key) {
                        Some(turn.caches.tokens[key])
                    } else {
                        None
                    },
                    events: seq![event],
                },
            }
        }),
{
    assert(remote::is_stream_at(streams, stream, i));
}

/// A stream that has been created is entered as known, and the message is sent, stamped with the time
/// of the turn, with the token that is stored for the stream.
pub proof fn law_created_stream(
    group: Seq<char>,
    stream: Seq<char>,
    message: Seq<char>,
    turn: Turn,
)
    requires
        turn.reply is Created,
    ensures
        ({
            let phase = EnsurePhase::StreamCreation;
            let ensuring = EnsuringView { group, stream, phase };
            let after = laws::take_turn(DeliveryView::Ensuring { ensuring, message }, turn);
            let key = group + "::"@ + stream;
            let event = LogEventView { message, timestamp: turn.now };
            &&& after.0 == CachesView {
                streams: turn.caches.streams.insert(key, true),
                ..turn.caches
            }
            &&& after.1 == StepView::Call {
                next: DeliveryView::Putting {
                    putting: PuttingView { group, stream, event, phase: PutPhase::FirstAttempt },
                },
                request: RequestView::PutLogEvents {
                    group,
                    stream,
                    sequence_token: if turn.caches.tokens.contains_key(key) {
                        Some(turn.caches.tokens[key])
                    } else {
                        None
                    },
                    events: seq![event],
                },
            }
        }),
{
}

/// A stream that no entry of the listing names is created, whatever else is listed: an entry whose
/// name only begins with that of the stream is another stream.
pub proof fn law_missing_stream_is_created(
    group: Seq<char>,
    stream: Seq<char>,
    message: Seq<char>,
    turn: Turn,
    streams: Seq<StreamSummaryView>,
)
    requires
        turn.reply == ReplyView::LogStreams(streams),
        forall|i: int| 0 <= i < streams.len() ==> (#[trigger] streams[i]).name != Some(stream),
    ensures
        ({
            let phase = EnsurePhase::StreamListing;
            let ensuring = EnsuringView { group, stream, phase };
            laws::take_turn(DeliveryView::Ensuring { ensuring, message }, turn) == (
                turn.caches,
                StepView::Call {
                    next: DeliveryView::Ensuring {
                        ensuring: EnsuringView {
                            group,
                            stream,
                            phase: EnsurePhase::StreamCreation,
                        },
                        message,
                    },
                    request: RequestView::CreateLogStream { group, stream },
                },
            )
        }),
{
}

/// A delivery that cannot look up or create its group or stream fails, and learns nothing.
pub proof fn law_unanswered_lookup_fails(
    ensuring: EnsuringView,
    message: Seq<char>,
    turn: Turn,
)
    requires
        match ensuring.phase {
            EnsurePhase::GroupListing => !(turn.reply is LogGroups),
            EnsurePhase::StreamListing => !(turn.reply is LogStreams),
            EnsurePhase::GroupCreation | EnsurePhase::StreamCreation => !(turn.reply is Created),
        },
    ensures
        laws::take_turn(DeliveryView::Ensuring { ensuring, message }, turn) == (
            turn.caches,
            StepView::Finished(Err(ErrorView::AwsConfig)),
        ),
{
}

/// An event that has been accepted, at the first attempt or at the second, is delivered, and the new
/// token is stored for the stream where one came back.
pub proof fn law_accepted_event_is_delivered(
    putting: PuttingView,
    turn: Turn,
    token: Option<Seq<char>>,
)
    requires
        putting.phase is FirstAttempt || putting.phase is SecondAttempt,
        turn.reply == ReplyView::Accepted(token),
    ensures
        ({
            let key = putting.group + "::"@ + putting.stream;
            laws::take_turn(DeliveryView::Putting { putting }, turn) == (
                CachesView {
                    tokens: match token {
                        Some(new_token) => turn.caches.tokens.insert(key, new_token),
                        None => turn.caches.tokens,
                    },
                    ..turn.caches
                },
                StepView::Finished(Ok(())),
            )
        }),
{
}

/// Where the first attempt is refused because of its token, the stream is listed, and the event is
/// kept for one more attempt.
pub proof fn law_refused_token_is_looked_up(putting: PuttingView, turn: Turn)
    requires
        putting.phase is FirstAttempt,
        turn.reply is InvalidSequenceToken,
    ensures
        laws::take_turn(DeliveryView::Putting { putting }, turn) == (
            turn.caches,
            StepView::Call {
                next: DeliveryView::Putting {
                    putting: PuttingView { phase: PutPhase::TokenListing, ..putting },
                },
                request: RequestView::DescribeLogStreams {
                    group: putting.group,
                    prefix: putting.stream,
                },
            },
        ),
{
}

/// Once the stream has been listed, the same event is sent again with the token of the first entry
/// that bears its name, whatever the caches hold; with none where there is no such entry.
pub proof fn law_retry_carries_the_listed_token(
    putting: PuttingView,
    turn: Turn,
    streams: Seq<StreamSummaryView>,
)
    requires
        putting.phase is TokenListing,
        turn.reply == ReplyView::LogStreams(streams),
    ensures
        ({
            let (caches_after, step_after) = laws::take_turn(
                DeliveryView::Putting { putting },
                turn,
            );
            &&& caches_after == turn.caches
            &&& step_after matches StepView::Call {
                next,
                request: RequestView::PutLogEvents { group, stream, sequence_token, events },
            }
            &&& next == (DeliveryView::Putting {
                putting: PuttingView { phase: PutPhase::SecondAttempt, ..putting },
            })
            &&& group == putting.group
            &&& stream == putting.stream
            &&& events == seq![putting.event]
            &&& forall|i: int|
                0 <= i < streams.len() && (#[trigger] streams[i]).name == Some(putting.stream) && (
                forall|j: int|
                    0 <= j < i ==> (#[trigger] streams[j]).name != Some(putting.stream))
                    ==> sequence_token == streams[i].upload_sequence_token
            &&& (forall|i: int|
                0 <= i < streams.len() ==> (#[trigger] streams[i]).name != Some(putting.stream))
                ==> sequence_token is None
        }),
{
    let token = remote::latest_token(streams, putting.stream);
    assert forall|i: int|
        0 <= i < streams.len() && (#[trigger] streams[i]).name == Some(putting.stream) && (forall|
            j: int,
        |
            0 <= j < i ==> (#[trigger] streams[j]).name != Some(putting.stream)) implies token
        == streams[i].upload_sequence_token by {
        remote::law_token_of_first_entry(streams, putting.stream, i);
    }
    if forall|i: int|
        0 <= i < streams.len() ==> (#[trigger] streams[i]).name != Some(putting.stream) {
        remote::law_no_token_where_not_listed(streams, putting.stream);
    }
}

/// Where the stream cannot be listed, the same event is sent again without a token.
pub proof fn law_retry_without_listing(putting: PuttingView, turn: Turn)
    requires
        putting.phase is TokenListing,
        !(turn.reply is LogStreams),
    ensures
        laws::take_turn(DeliveryView::Putting { putting }, turn) == (
            turn.caches,
            StepView::Call {
                next: DeliveryView::Putting {
                    putting: PuttingView { phase: PutPhase::SecondAttempt, ..putting },
                },
                request: RequestView::PutLogEvents {
                    group: putting.group,
                    stream: putting.stream,
                    sequence_token: None,
                    events: seq![putting.event],
                },
            },
        ),
{
}

/// An attempt that is neither accepted nor, being the first, refused because of its token, ends the
/// delivery with an error, and leaves the caches as they are.
pub proof fn law_failed_attempt_fails(putting: PuttingView, turn: Turn)
    requires
        putting.phase is FirstAttempt || putting.phase is SecondAttempt,
        !(turn.reply is Accepted),
        putting.phase is FirstAttempt ==> !(turn.reply is InvalidSequenceToken),
    ensures
        laws::take_turn(DeliveryView::Putting { putting }, turn) == (
            turn.caches,
            StepView::Finished(Err(ErrorView::AwsConfig)),
        ),
{
}

/// A refused token is replaced: after the refusal of the first attempt and the listing that follows,
/// the same event goes out with the token that the listing gives for the stream.
pub proof fn law_refused_token_is_replaced(
    putting: PuttingView,
    refused: Turn,
    listed: Turn,
    streams: Seq<StreamSummaryView>,
    first: int,
)
    requires
        putting.phase is FirstAttempt,
        refused.reply is InvalidSequenceToken,
        listed.reply == ReplyView::LogStreams(streams),
        0 <= first < streams.len(),
        streams[first].name == Some(putting.stream),
        forall|i: int| 0 <= i < first ==> (#[trigger] streams[i]).name != Some(putting.stream),
    ensures
        ({
            let listing = laws::take_turn(DeliveryView::Putting { putting }, refused).1;
            &&& listing matches StepView::Call { next, .. }
            &&& laws::take_turn(next, listed).1 matches StepView::Call { request, .. }
            &&& request == RequestView::PutLogEvents {
                group: putting.group,
                stream: putting.stream,
                sequence_token: streams[first].upload_sequence_token,
                events: seq![putting.event],
            }
        }),
{
    remote::law_token_of_first_entry(streams, putting.stream, first);
}

} // verus!
