//! What holds of every delivery, whatever the replies are and whatever other deliveries do to the
//! caches in the meantime.

use vstd::prelude::*;

use crate::cache;
use crate::cache::CachesView;
use crate::delivery;
use crate::delivery::{DeliveryView, ErrorView, StepView};
use crate::ensure::EnsurePhase;
use crate::put::PutPhase;
use crate::remote;
use crate::remote::{LogEventView, ReplyView, RequestView};

verus! {

/// One turn of a delivery: a reply, the time at which it came, and what the caches held by then.
pub struct Turn {
    pub caches: CachesView,
    pub reply: ReplyView,
    pub now: int,
}

/// The caches and the step that a turn leads to.
pub open spec fn take_turn(state: DeliveryView, turn: Turn) -> (CachesView, StepView) {
    delivery::delivery_next(state, turn.caches, turn.reply, turn.now)
}

/// The calls that a delivery makes from a step on, with these turns to come.
pub open spec fn calls(step: StepView, turns: Seq<Turn>) -> Seq<RequestView>
    decreases turns.len(),
{
    match step {
        StepView::Finished(_) => Seq::empty(),
        StepView::Call { next, request } => {
            if turns.len() == 0 {
                seq![request]
            } else {
                seq![request] + calls(take_turn(next, turns.first()).1, turns.drop_first())
            }
        },
    }
}

/// The caches and the step that these turns lead to.
pub open spec fn settle(caches: CachesView, step: StepView, turns: Seq<Turn>) -> (
    CachesView,
    StepView,
)
    decreases turns.len(),
{
    match step {
        StepView::Finished(_) => (caches, step),
        StepView::Call { next, request } => {
            if turns.len() == 0 {
                (caches, step)
            } else {
                let (caches_after, step_after) = take_turn(next, turns.first());
                settle(caches_after, step_after, turns.drop_first())
            }
        },
    }
}

/// The number of calls that send events.
pub open spec fn attempts(requests: Seq<RequestView>) -> nat
    decreases requests.len(),
{
    if requests.len() == 0 {
        0
    } else {
        attempts(requests.drop_first()) + (if requests.first() is PutLogEvents {
            1nat
        } else {
            0
        })
    }
}

/// Whether a call concerns this group and this stream, and sends this event where it sends any.
pub open spec fn serves(
    request: RequestView,
    group: Seq<char>,
    stream: Seq<char>,
    event: LogEventView,
) -> bool {
    match request {
        RequestView::DescribeLogGroups { prefix } => prefix == group,
        RequestView::CreateLogGroup { group: named } => named == group,
        RequestView::DescribeLogStreams { group: named, prefix } => named == group && prefix
            == stream,
        RequestView::CreateLogStream { group: named, stream: named_stream } => named == group
            && named_stream == stream,
        RequestView::PutLogEvents { group: named, stream: named_stream, events, .. } => named
            == group && named_stream == stream && events == seq![event],
    }
}

/// Whether everything that is known in `earlier` is known in `later`.
pub open spec fn knows_all_of(later: CachesView, earlier: CachesView) -> bool {
    &&& forall|group: Seq<char>| #[trigger]
        earlier.knows_group(group) ==> later.knows_group(group)
    &&& forall|key: Seq<char>| #[trigger] earlier.knows_stream(key) ==> later.knows_stream(key)
}

/// Whether nothing that a delivery has entered into the caches is lost before its next turn.
pub open spec fn nothing_forgotten(caches: CachesView, step: StepView, turns: Seq<Turn>) -> bool
    decreases turns.len(),
{
    match step {
        StepView::Finished(_) => true,
        StepView::Call { next, request } => {
            turns.len() > 0 ==> {
                let (caches_after, step_after) = take_turn(next, turns.first());
                &&& knows_all_of(turns.first().caches, caches)
                &&& nothing_forgotten(caches_after, step_after, turns.drop_first())
            }
        },
    }
}

/// An upper bound on the calls that are made from a step on, the one in the step counted.
spec fn calls_left(step: StepView) -> nat {
    match step {
        StepView::Finished(_) => 0,
        StepView::Call { next: DeliveryView::Ensuring { ensuring: work, .. }, .. } => match work.phase {
            EnsurePhase::GroupListing => 7,
            EnsurePhase::GroupCreation => 6,
            EnsurePhase::StreamListing => 5,
            EnsurePhase::StreamCreation => 4,
        },
        StepView::Call { next: DeliveryView::Putting { putting: work }, .. } => match work.phase {
            PutPhase::FirstAttempt => 3,
            PutPhase::TokenListing => 2,
            PutPhase::SecondAttempt => 1,
        },
    }
}

/// An upper bound on the attempts that are made from a step on, the one in the step counted.
spec fn attempts_left(step: StepView) -> nat {
    match step {
        StepView::Finished(_) => 0,
        StepView::Call { next: DeliveryView::Ensuring { .. }, .. } => 2,
        StepView::Call { next: DeliveryView::Putting { putting: work }, .. } => match work.phase {
            PutPhase::FirstAttempt => 2,
            PutPhase::TokenListing => 1,
            PutPhase::SecondAttempt => 1,
        },
    }
}

/// Whether the call in a step is the one that its phase awaits: an attempt sends events, and
/// nothing else does.
spec fn call_fits(step: StepView) -> bool {
    match step {
        StepView::Finished(_) => true,
        StepView::Call { next: DeliveryView::Ensuring { ensuring: work, .. }, request } => request
            == work.awaited(),
        StepView::Call { next: DeliveryView::Putting { putting: work }, request } => request is PutLogEvents
            <==> !(work.phase is TokenListing),
    }
}

proof fn lemma_calls_left(step: StepView, turns: Seq<Turn>)
    ensures
        calls(step, turns).len() <= calls_left(step),
    decreases turns.len(),
{
    if let StepView::Call { next, request } = step {
        if turns.len() > 0 {
            let after = take_turn(next, turns.first()).1;
            assert(calls_left(after) < calls_left(step));
            lemma_calls_left(after, turns.drop_first());
        }
    }
}

proof fn lemma_attempts_left(step: StepView, turns: Seq<Turn>)
    requires
        call_fits(step),
    ensures
        attempts(calls(step, turns)) <= attempts_left(step),
    decreases turns.len(),
{
    reveal_with_fuel(attempts, 2);
    if let StepView::Call { next, request } = step {
        let made = calls(step, turns);
        if turns.len() > 0 {
            let after = take_turn(next, turns.first()).1;
            assert(call_fits(after));
            lemma_attempts_left(after, turns.drop_first());
            assert(made.drop_first() =~= calls(after, turns.drop_first()));
        } else {
            assert(made.drop_first() =~= Seq::empty());
        }
    }
}

proof fn lemma_settles(caches: CachesView, step: StepView, turns: Seq<Turn>)
    requires
        calls_left(step) <= turns.len(),
    ensures
        settle(caches, step, turns).1 is Finished,
    decreases turns.len(),
{
    if let StepView::Call { next, request } = step {
        let (caches_after, step_after) = take_turn(next, turns.first());
        assert(calls_left(step_after) < calls_left(step));
        lemma_settles(caches_after, step_after, turns.drop_first());
    }
}

/// A delivery ends: it makes at most seven calls, and has finished once seven replies have come.
pub proof fn law_delivery_ends(
    caches: CachesView,
    group: Seq<char>,
    stream: Seq<char>,
    message: Seq<char>,
    now: int,
    turns: Seq<Turn>,
)
    ensures
        ({
            let start = delivery::delivery_start(caches, group, stream, message, now);
            &&& calls(start, turns).len() <= 7
            &&& turns.len() >= 7 ==> settle(caches, start, turns).1 is Finished
        }),
{
    let start = delivery::delivery_start(caches, group, stream, message, now);
    lemma_calls_left(start, turns);
    if turns.len() >= 7 {
        lemma_settles(caches, start, turns);
    }
}

/// Whether call `i` is the first that sends events.
pub open spec fn is_first_attempt(requests: Seq<RequestView>, i: int) -> bool {
    &&& 0 <= i < requests.len()
    &&& requests[i] is PutLogEvents
    &&& attempts(requests.take(i)) == 0
}

/// Whether call `i` is the first that sends events, and its reply refuses the sequence token.
pub open spec fn is_refused_at(requests: Seq<RequestView>, turns: Seq<Turn>, i: int) -> bool {
    &&& is_first_attempt(requests, i)
    &&& i < turns.len()
    &&& turns[i].reply is InvalidSequenceToken
}

/// One more call in front adds one attempt where it sends events.
proof fn lemma_attempts_prepend(request: RequestView, rest: Seq<RequestView>)
    ensures
        attempts(seq![request] + rest) == attempts(rest) + (if request is PutLogEvents {
            1nat
        } else {
            0
        }),
{
    assert((seq![request] + rest).drop_first() =~= rest);
}

/// With a call in front that sends nothing, the first attempt comes one call later.
proof fn lemma_first_attempt_later(request: RequestView, rest: Seq<RequestView>, i: int)
    requires
        !(request is PutLogEvents),
        i >= 0,
    ensures
        is_first_attempt(seq![request] + rest, i + 1) <==> is_first_attempt(rest, i),
        !is_first_attempt(seq![request] + rest, 0),
{
    if i < rest.len() {
        assert((seq![request] + rest).take(i + 1) =~= seq![request] + rest.take(i));
        lemma_attempts_prepend(request, rest.take(i));
    }
}

/// With a call in front that sends events, that call is the first attempt.
proof fn lemma_first_attempt_now(request: RequestView, rest: Seq<RequestView>, i: int)
    requires
        request is PutLogEvents,
    ensures
        is_first_attempt(seq![request] + rest, i) <==> i == 0,
{
    let whole = seq![request] + rest;
    assert(whole.take(0) =~= Seq::empty());
    if 0 < i < whole.len() {
        assert(whole.take(i) =~= seq![request] + rest.take(i - 1));
        lemma_attempts_prepend(request, rest.take(i - 1));
    }
}

/// Whether nothing has been sent before the step.
spec fn is_unsent(step: StepView) -> bool {
    match step {
        StepView::Finished(_) => true,
        StepView::Call { next: DeliveryView::Ensuring { .. }, .. } => true,
        StepView::Call { next: DeliveryView::Putting { putting: work }, .. } => {
            work.phase is FirstAttempt
        },
    }
}

proof fn lemma_retry_follows_refusal(step: StepView, turns: Seq<Turn>)
    requires
        call_fits(step),
        is_unsent(step),
    ensures
        attempts(calls(step, turns)) == 2 <==> exists|i: int|
            is_refused_at(calls(step, turns), turns, i) && i + 1 < turns.len(),
    decreases turns.len(),
{
    let made = calls(step, turns);
    if let StepView::Call { next, request } = step {
        let later = if turns.len() == 0 {
            Seq::empty()
        } else {
            calls(take_turn(next, turns.first()).1, turns.drop_first())
        };
        assert(made =~= seq![request] + later);
        lemma_attempts_prepend(request, later);
        if next is Ensuring {
            if turns.len() > 0 {
                let rest = turns.drop_first();
                lemma_retry_follows_refusal(take_turn(next, turns.first()).1, rest);
                if attempts(made) == 2 {
                    let i = choose|i: int| is_refused_at(later, rest, i) && i + 1 < rest.len();
                    lemma_first_attempt_later(request, later, i);
                    assert(is_refused_at(made, turns, i + 1));
                }
                if exists|i: int| is_refused_at(made, turns, i) && i + 1 < turns.len() {
                    let i = choose|i: int| is_refused_at(made, turns, i) && i + 1 < turns.len();
                    lemma_first_attempt_later(request, later, if i == 0 {
                        0
                    } else {
                        i - 1
                    });
                    assert(is_refused_at(later, rest, i - 1));
                }
            }
        } else {
            assert forall|i: int| is_first_attempt(made, i) <==> i == 0 by {
                lemma_first_attempt_now(request, later, i);
            }
            if turns.len() > 0 {
                lemma_attempts_after_first(next, turns);
                if attempts(made) == 2 {
                    assert(is_refused_at(made, turns, 0));
                }
            }
        }
    } else {
        assert(made =~= Seq::empty());
    }
}

/// After the first attempt there is one more exactly where the reply refuses the token and the
/// listing that follows is answered.
proof fn lemma_attempts_after_first(state: DeliveryView, turns: Seq<Turn>)
    requires
        turns.len() > 0,
        state matches DeliveryView::Putting { putting: work } && work.phase is FirstAttempt,
    ensures
        attempts(calls(take_turn(state, turns.first()).1, turns.drop_first())) == (if turns[0].reply
            is InvalidSequenceToken && turns.len() > 1 {
            1nat
        } else {
            0
        }),
{
    let after = take_turn(state, turns.first()).1;
    let rest = turns.drop_first();
    if let StepView::Call { next, request } = after {
        let later = if rest.len() == 0 {
            Seq::empty()
        } else {
            calls(take_turn(next, rest.first()).1, rest.drop_first())
        };
        assert(calls(after, rest) =~= seq![request] + later);
        lemma_attempts_prepend(request, later);
        if rest.len() > 0 {
            let again = take_turn(next, rest.first()).1;
            lemma_attempts_left(again, rest.drop_first());
            lemma_attempts_at_least(again, rest.drop_first());
        }
    }
}

/// A step that sends events is an attempt.
proof fn lemma_attempts_at_least(step: StepView, turns: Seq<Turn>)
    requires
        step matches StepView::Call { request, .. } && request is PutLogEvents,
    ensures
        attempts(calls(step, turns)) >= 1,
{
    if let StepView::Call { next, request } = step {
        let later = if turns.len() == 0 {
            Seq::empty()
        } else {
            calls(take_turn(next, turns.first()).1, turns.drop_first())
        };
        assert(calls(step, turns) =~= seq![request] + later);
        lemma_attempts_prepend(request, later);
    }
}

/// An event is sent at most twice, and twice exactly where the reply to the first attempt refuses
/// the sequence token, and the listing for the latest token is answered.
pub proof fn law_one_retry(
    caches: CachesView,
    group: Seq<char>,
    stream: Seq<char>,
    message: Seq<char>,
    now: int,
    turns: Seq<Turn>,
)
    ensures
        ({
            let made = calls(delivery::delivery_start(caches, group, stream, message, now), turns);
            &&& attempts(made) <= 2
            &&& attempts(made) == 2 <==> exists|i: int|
                is_refused_at(made, turns, i) && i + 1 < turns.len()
        }),
{
    let start = delivery::delivery_start(caches, group, stream, message, now);
    lemma_attempts_left(start, turns);
    lemma_retry_follows_refusal(start, turns);
}

/// Whether a step belongs to the delivery of this message to this stream.
spec fn belongs(
    step: StepView,
    group: Seq<char>,
    stream: Seq<char>,
    message: Seq<char>,
) -> bool {
    match step {
        StepView::Finished(_) => true,
        StepView::Call { next: DeliveryView::Ensuring { ensuring: work, message: unsent }, request } => {
            &&& work.group == group
            &&& work.stream == stream
            &&& unsent == message
            &&& request == work.awaited()
        },
        StepView::Call { next: DeliveryView::Putting { putting: work }, request } => {
            &&& work.group == group
            &&& work.stream == stream
            &&& work.event.message == message
            &&& serves(request, group, stream, work.event)
        },
    }
}

/// Whether a time is that of one of the turns.
pub open spec fn is_time_of_turn(turns: Seq<Turn>, time: int) -> bool {
    exists|i: int| 0 <= i < turns.len() && (#[trigger] turns[i]).now == time
}

/// The time at which call `i` of a delivery is asked for: that of the turn before it, or the time
/// `now` of the beginning.
pub open spec fn time_of_call(turns: Seq<Turn>, now: int, i: int) -> int {
    if i == 0 {
        now
    } else {
        turns[i - 1].now
    }
}

proof fn lemma_calls_serve(
    step: StepView,
    turns: Seq<Turn>,
    group: Seq<char>,
    stream: Seq<char>,
    message: Seq<char>,
    now: int,
) -> (event: LogEventView)
    requires
        belongs(step, group, stream, message),
        call_fits(step),
    ensures
        event.message == message,
        match step {
            StepView::Call { next: DeliveryView::Putting { putting: work }, .. } => event
                == work.event,
            _ => {
                &&& event.timestamp == now || is_time_of_turn(turns, event.timestamp)
                &&& forall|i: int| #[trigger]
                    is_first_attempt(calls(step, turns), i) ==> 0 < i <= turns.len()
                        && event.timestamp == turns[i - 1].now
            },
        },
        forall|i: int|
            0 <= i < calls(step, turns).len() ==> serves(
                #[trigger] calls(step, turns)[i],
                group,
                stream,
                event,
            ),
    decreases turns.len(),
{
    let unsent = LogEventView { message, timestamp: now };
    match step {
        StepView::Finished(_) => unsent,
        StepView::Call { next, request } => {
            if turns.len() == 0 {
                assert(calls(step, turns) =~= seq![request] + Seq::empty());
                match next {
                    DeliveryView::Putting { putting: work } => work.event,
                    DeliveryView::Ensuring { .. } => unsent,
                }
            } else {
                let after = take_turn(next, turns.first()).1;
                let rest = turns.drop_first();
                let later = lemma_calls_serve(after, rest, group, stream, message, now);
                let event = match next {
                    DeliveryView::Putting { putting: work } => work.event,
                    DeliveryView::Ensuring { .. } => later,
                };
                assert(serves(request, group, stream, event));
                assert forall|i: int| 0 <= i < calls(after, rest).len() implies serves(
                    #[trigger] calls(after, rest)[i],
                    group,
                    stream,
                    event,
                ) by {
                    assert(serves(calls(after, rest)[i], group, stream, later));
                }
                assert(calls(step, turns) == seq![request] + calls(after, rest));
                if next is Ensuring {
                    lemma_event_stamp(step, turns, event);
                }
                event
            }
        },
    }
}

/// The stamp of an event is not changed by the turns before it is sent.
proof fn lemma_event_stamp(step: StepView, turns: Seq<Turn>, event: LogEventView)
    requires
        turns.len() > 0,
        call_fits(step),
        step matches StepView::Call { next, .. } && next is Ensuring && match take_turn(
            next,
            turns.first(),
        ).1 {
            StepView::Call { next: DeliveryView::Putting { putting: work }, .. } => event
                == work.event,
            after => forall|i: int| #[trigger]
                is_first_attempt(calls(after, turns.drop_first()), i) ==> 0 < i
                    <= turns.drop_first().len() && event.timestamp == turns.drop_first()[i - 1].now,
        },
    ensures
        forall|i: int| #[trigger]
            is_first_attempt(calls(step, turns), i) ==> 0 < i <= turns.len() && event.timestamp
                == turns[i - 1].now,
{
    if let StepView::Call { next, request } = step {
        let after = take_turn(next, turns.first()).1;
        let later = calls(after, turns.drop_first());
        assert forall|i: int| #[trigger] is_first_attempt(calls(step, turns), i) implies 0 < i
            <= turns.len() && event.timestamp == turns[i - 1].now by {
            lemma_first_attempt_later(request, later, 0);
            lemma_first_attempt_later(request, later, i - 1);
            if let StepView::Call { next: sending, request: put } = after {
                if sending is Putting {
                    let rest = turns.drop_first();
                    let end = if rest.len() == 0 {
                        Seq::empty()
                    } else {
                        calls(take_turn(sending, rest.first()).1, rest.drop_first())
                    };
                    assert(later =~= seq![put] + end);
                    lemma_first_attempt_now(put, end, i - 1);
                }
            }
        }
    }
}

/// Whether all calls concern this group and this stream, and every attempt sends just this event,
/// stamped with the time at which the first attempt is asked for.
pub open spec fn is_event_of(
    event: LogEventView,
    made: Seq<RequestView>,
    turns: Seq<Turn>,
    group: Seq<char>,
    stream: Seq<char>,
    now: int,
) -> bool {
    &&& event.timestamp == now || is_time_of_turn(turns, event.timestamp)
    &&& forall|i: int| #[trigger]
        is_first_attempt(made, i) ==> event.timestamp == time_of_call(turns, now, i)
    &&& forall|i: int|
        0 <= i < made.len() ==> serves(#[trigger] made[i], group, stream, event)
}

/// All calls of a delivery concern its own group and stream, and every attempt sends the same
/// single event. It holds the message and the time at which the first attempt was asked for, which
/// is the time of the beginning or of a turn.
pub proof fn law_calls_serve_the_message(
    caches: CachesView,
    group: Seq<char>,
    stream: Seq<char>,
    message: Seq<char>,
    now: int,
    turns: Seq<Turn>,
)
    ensures
        ({
            let made = calls(delivery::delivery_start(caches, group, stream, message, now), turns);
            exists|event: LogEventView|
                {
                    &&& event.message == message
                    &&& #[trigger] is_event_of(event, made, turns, group, stream, now)
                }
        }),
{
    let start = delivery::delivery_start(caches, group, stream, message, now);
    let made = calls(start, turns);
    let event = lemma_calls_serve(start, turns, group, stream, message, now);
    assert forall|i: int| #[trigger] is_first_attempt(made, i) implies event.timestamp
        == time_of_call(turns, now, i) by {
        if let StepView::Call { next, request } = start {
            if next is Putting {
                let later = if turns.len() == 0 {
                    Seq::empty()
                } else {
                    calls(take_turn(next, turns.first()).1, turns.drop_first())
                };
                assert(made =~= seq![request] + later);
                lemma_first_attempt_now(request, later, i);
            }
        }
    }
    assert(is_event_of(event, made, turns, group, stream, now));
}

/// Whether the reply to a call that sends the event is awaited.
pub open spec fn is_attempt(state: DeliveryView) -> bool {
    match state {
        DeliveryView::Ensuring { .. } => false,
        DeliveryView::Putting { putting: work } => !(work.phase is TokenListing),
    }
}

/// A message counts as delivered exactly where an attempt to send it has been accepted, and every
/// failure on the way is reported as [`delivery::Error::AwsConfig`].
pub proof fn law_delivered_when_accepted(state: DeliveryView, turn: Turn)
    ensures
        take_turn(state, turn).1 == StepView::Finished(Ok(())) <==> is_attempt(state)
            && turn.reply is Accepted,
        take_turn(state, turn).1 matches StepView::Finished(Err(error)) ==> error
            == ErrorView::AwsConfig,
{
}

/// A group or stream is created only where a listing has just come back without it.
pub proof fn law_created_only_where_missing(state: DeliveryView, turn: Turn)
    ensures
        take_turn(state, turn).1 matches StepView::Call {
            request: RequestView::CreateLogGroup { group },
            ..
        } ==> {
            &&& state matches DeliveryView::Ensuring { ensuring: work, .. }
            &&& work.phase is GroupListing
            &&& turn.reply matches ReplyView::LogGroups(groups)
            &&& !remote::lists_group(groups, group)
        },
        take_turn(state, turn).1 matches StepView::Call {
            request: RequestView::CreateLogStream { group, stream },
            ..
        } ==> {
            &&& state matches DeliveryView::Ensuring { ensuring: work, .. }
            &&& work.phase is StreamListing
            &&& turn.reply matches ReplyView::LogStreams(streams)
            &&& !remote::lists_stream(streams, stream)
        },
{
}

/// The group and the stream that a delivery works on.
pub open spec fn target(state: DeliveryView) -> (Seq<char>, Seq<char>) {
    match state {
        DeliveryView::Ensuring { ensuring: work, .. } => (work.group, work.stream),
        DeliveryView::Putting { putting: work } => (work.group, work.stream),
    }
}

/// A turn forgets nothing that is known, and touches no entry but those of its own group and
/// stream.
pub proof fn law_caches_grow(state: DeliveryView, turn: Turn)
    ensures
        ({
            let after = take_turn(state, turn).0;
            let (group, stream) = target(state);
            let key = cache::key_of(group, stream);
            &&& knows_all_of(after, turn.caches)
            &&& after.groups.remove(group) == turn.caches.groups.remove(group)
            &&& after.streams.remove(key) == turn.caches.streams.remove(key)
            &&& after.tokens.remove(key) == turn.caches.tokens.remove(key)
        }),
{
    let after = take_turn(state, turn).0;
    let (group, stream) = target(state);
    let key = cache::key_of(group, stream);
    assert(after.groups.remove(group) =~= turn.caches.groups.remove(group));
    assert(after.streams.remove(key) =~= turn.caches.streams.remove(key));
    assert(after.tokens.remove(key) =~= turn.caches.tokens.remove(key));
}

/// Whether the caches know as much of the group and the stream as the step supposes.
spec fn backed(caches: CachesView, step: StepView, group: Seq<char>, stream: Seq<char>) -> bool {
    let key = cache::key_of(group, stream);
    match step {
        StepView::Finished(Ok(())) => caches.knows_group(group) && caches.knows_stream(key),
        StepView::Finished(Err(_)) => true,
        StepView::Call { next, .. } => {
            &&& target(next) == (group, stream)
            &&& match next {
                DeliveryView::Ensuring { ensuring: work, .. } => work.phase is StreamListing
                    || work.phase is StreamCreation ==> caches.knows_group(group),
                DeliveryView::Putting { .. } => caches.knows_group(group) && caches.knows_stream(
                    key,
                ),
            }
        },
    }
}

proof fn lemma_backed(
    caches: CachesView,
    step: StepView,
    turns: Seq<Turn>,
    group: Seq<char>,
    stream: Seq<char>,
)
    requires
        backed(caches, step, group, stream),
        nothing_forgotten(caches, step, turns),
    ensures
        backed(settle(caches, step, turns).0, settle(caches, step, turns).1, group, stream),
    decreases turns.len(),
{
    if let StepView::Call { next, request } = step {
        if turns.len() > 0 {
            let (caches_after, step_after) = take_turn(next, turns.first());
            law_caches_grow(next, turns.first());
            lemma_backed(caches_after, step_after, turns.drop_first(), group, stream);
        }
    }
}

/// What a delivery has found out is not asked again: once a message has been delivered, the group
/// and the stream are known, and the next message for the stream is sent at once, with the token
/// that is stored by then.
pub proof fn law_success_is_remembered(
    caches: CachesView,
    group: Seq<char>,
    stream: Seq<char>,
    message: Seq<char>,
    now: int,
    turns: Seq<Turn>,
    next_message: Seq<char>,
    next_now: int,
)
    requires
        nothing_forgotten(
            caches,
            delivery::delivery_start(caches, group, stream, message, now),
            turns,
        ),
    ensures
        ({
            let (caches_after, step_after) = settle(
                caches,
                delivery::delivery_start(caches, group, stream, message, now),
                turns,
            );
            let key = cache::key_of(group, stream);
            step_after == StepView::Finished(Ok(())) ==> {
                &&& caches_after.knows_group(group)
                &&& caches_after.knows_stream(key)
                &&& delivery::delivery_start(caches_after, group, stream, next_message, next_now)
                    matches StepView::Call { request, .. }
                &&& request == RequestView::PutLogEvents {
                    group,
                    stream,
                    sequence_token: caches_after.token(key),
                    events: seq![LogEventView { message: next_message, timestamp: next_now }],
                }
            }
        }),
{
    let start = delivery::delivery_start(caches, group, stream, message, now);
    lemma_backed(caches, start, turns, group, stream);
}

/// A message for a known stream is sent at once, with the token that is stored for the stream;
/// whatever comes back, no group is listed and nothing is created.
pub proof fn law_known_stream_is_not_looked_up(
    caches: CachesView,
    group: Seq<char>,
    stream: Seq<char>,
    message: Seq<char>,
    now: int,
    turns: Seq<Turn>,
)
    requires
        caches.knows_group(group),
        caches.knows_stream(cache::key_of(group, stream)),
    ensures
        ({
            let made = calls(delivery::delivery_start(caches, group, stream, message, now), turns);
            &&& made.len() > 0
            &&& made[0] == RequestView::PutLogEvents {
                group,
                stream,
                sequence_token: caches.token(cache::key_of(group, stream)),
                events: seq![LogEventView { message, timestamp: now }],
            }
            &&& forall|i: int|
                0 <= i < made.len() ==> (#[trigger] made[i]) is PutLogEvents
                    || made[i] is DescribeLogStreams
        }),
{
    lemma_putting_creates_nothing(
        delivery::delivery_start(caches, group, stream, message, now),
        turns,
    );
}

proof fn lemma_putting_creates_nothing(step: StepView, turns: Seq<Turn>)
    requires
        step matches StepView::Call { next, request } ==> next is Putting && (
        request is PutLogEvents || request is DescribeLogStreams),
    ensures
        forall|i: int|
            0 <= i < calls(step, turns).len() ==> (#[trigger] calls(step, turns)[i]) is PutLogEvents
                || calls(step, turns)[i] is DescribeLogStreams,
    decreases turns.len(),
{
    if let StepView::Call { next, request } = step {
        if turns.len() > 0 {
            lemma_putting_creates_nothing(
                take_turn(next, turns.first()).1,
                turns.drop_first(),
            );
        }
    }
}

/// The token that comes back with an accepted event is kept for the next event of the stream. An
/// event that is accepted without a new token leaves the stored one in place, and nothing else
/// touches the tokens.
pub proof fn law_latest_token_is_kept(state: DeliveryView, turn: Turn)
    ensures
        ({
            let (caches_after, step_after) = take_turn(state, turn);
            let (group, stream) = target(state);
            let key = cache::key_of(group, stream);
            if step_after == StepView::Finished(Ok(())) {
                turn.reply matches ReplyView::Accepted(token) && caches_after.token(key) == (
                match token {
                    Some(new_token) => Some(new_token),
                    None => turn.caches.token(key),
                })
            } else {
                caches_after.tokens == turn.caches.tokens
            }
        }),
{
}

/// A turn of some delivery, taken on the caches as they are.
pub struct OtherTurn {
    pub state: DeliveryView,
    pub reply: ReplyView,
    pub now: int,
}

/// The caches after a row of turns of other deliveries.
pub open spec fn meanwhile(caches: CachesView, others: Seq<OtherTurn>) -> CachesView
    decreases others.len(),
{
    if others.len() == 0 {
        caches
    } else {
        let OtherTurn { state, reply, now } = others.first();
        meanwhile(delivery::delivery_next(state, caches, reply, now).0, others.drop_first())
    }
}

/// Whether a delivery works on the stream with this key.
pub open spec fn works_on(state: DeliveryView, key: Seq<char>) -> bool {
    cache::key_of(target(state).0, target(state).1) == key
}

proof fn lemma_meanwhile(caches: CachesView, others: Seq<OtherTurn>, key: Seq<char>)
    requires
        forall|i: int| 0 <= i < others.len() ==> !works_on((#[trigger] others[i]).state, key),
    ensures
        meanwhile(caches, others).token(key) == caches.token(key),
        knows_all_of(meanwhile(caches, others), caches),
    decreases others.len(),
{
    if others.len() > 0 {
        let OtherTurn { state, reply, now } = others.first();
        let turn = Turn { caches, reply, now };
        let after = take_turn(state, turn).0;
        assert(!works_on(others[0].state, key));
        law_caches_grow(state, turn);
        assert(after.token(key) == caches.token(key));
        lemma_meanwhile(after, others.drop_first(), key);
    }
}

/// The token that comes back with an accepted event goes out with the next event of the stream,
/// whatever deliveries to streams with other keys do in between.
pub proof fn law_token_reaches_the_next_event(
    state: DeliveryView,
    turn: Turn,
    token: Seq<char>,
    others: Seq<OtherTurn>,
    next_message: Seq<char>,
    next_now: int,
)
    requires
        take_turn(state, turn).1 == StepView::Finished(Ok(())),
        turn.reply == ReplyView::Accepted(Some(token)),
        turn.caches.knows_group(target(state).0),
        turn.caches.knows_stream(cache::key_of(target(state).0, target(state).1)),
        forall|i: int|
            0 <= i < others.len() ==> !works_on(
                (#[trigger] others[i]).state,
                cache::key_of(target(state).0, target(state).1),
            ),
    ensures
        ({
            let (group, stream) = target(state);
            let later = meanwhile(take_turn(state, turn).0, others);
            &&& delivery::delivery_start(later, group, stream, next_message, next_now) matches
                StepView::Call { request, .. }
            &&& request == RequestView::PutLogEvents {
                group,
                stream,
                sequence_token: Some(token),
                events: seq![LogEventView { message: next_message, timestamp: next_now }],
            }
        }),
{
    let (group, stream) = target(state);
    let caches_after = take_turn(state, turn).0;
    let key = cache::key_of(group, stream);
    law_caches_grow(state, turn);
    law_latest_token_is_kept(state, turn);
    lemma_meanwhile(caches_after, others, key);
    assert(caches_after.knows_group(group) && caches_after.knows_stream(key));
}

/// The caches learn of a group or a stream only from a reply that shows that it exists: a listing
/// that names it, or its creation.
pub proof fn law_learnt_from_replies(state: DeliveryView, turn: Turn, name: Seq<char>)
    ensures
        take_turn(state, turn).0.knows_group(name) && !turn.caches.knows_group(name) ==> {
            &&& state matches DeliveryView::Ensuring { ensuring: work, .. }
            &&& work.group == name
            &&& match turn.reply {
                ReplyView::LogGroups(groups) => work.phase is GroupListing && remote::lists_group(
                    groups,
                    name,
                ),
                ReplyView::Created => work.phase is GroupCreation,
                _ => false,
            }
        },
        take_turn(state, turn).0.knows_stream(name) && !turn.caches.knows_stream(name) ==> {
            &&& state matches DeliveryView::Ensuring { ensuring: work, .. }
            &&& cache::key_of(work.group, work.stream) == name
            &&& match turn.reply {
                ReplyView::LogStreams(streams) => work.phase is StreamListing
                    && remote::lists_stream(streams, work.stream),
                ReplyView::Created => work.phase is StreamCreation,
                _ => false,
            }
        },
{
}

/// The group and the stream are made sure of before anything is sent: whenever a delivery sends its
/// event or awaits the fate of it, both are known.
pub proof fn law_stream_exists_before_sending(
    caches: CachesView,
    group: Seq<char>,
    stream: Seq<char>,
    message: Seq<char>,
    now: int,
    turns: Seq<Turn>,
)
    requires
        nothing_forgotten(
            caches,
            delivery::delivery_start(caches, group, stream, message, now),
            turns,
        ),
    ensures
        ({
            let (caches_after, step_after) = settle(
                caches,
                delivery::delivery_start(caches, group, stream, message, now),
                turns,
            );
            step_after matches StepView::Call { next, request } && (next is Putting
                || request is PutLogEvents) ==> caches_after.knows_group(group)
                && caches_after.knows_stream(cache::key_of(group, stream))
        }),
{
    let start = delivery::delivery_start(caches, group, stream, message, now);
    lemma_backed(caches, start, turns, group, stream);
    lemma_settled_call_fits(caches, start, turns);
}

proof fn lemma_settled_call_fits(caches: CachesView, step: StepView, turns: Seq<Turn>)
    requires
        call_fits(step),
    ensures
        call_fits(settle(caches, step, turns).1),
    decreases turns.len(),
{
    if let StepView::Call { next, request } = step {
        if turns.len() > 0 {
            let (caches_after, step_after) = take_turn(next, turns.first());
            lemma_settled_call_fits(caches_after, step_after, turns.drop_first());
        }
    }
}

/// Whether a reply is what the service gives where it does what the call asks for.
pub open spec fn is_answer(request: RequestView, reply: ReplyView) -> bool {
    match request {
        RequestView::DescribeLogGroups { .. } => reply is LogGroups,
        RequestView::DescribeLogStreams { .. } => reply is LogStreams,
        RequestView::CreateLogGroup { .. } => reply is Created,
        RequestView::CreateLogStream { .. } => reply is Created,
        RequestView::PutLogEvents { .. } => reply is Accepted,
    }
}

/// Whether the service does what every call asks for, but for as many refusals of a sequence token
/// as are given.
pub open spec fn all_answered(step: StepView, turns: Seq<Turn>, refusals: nat) -> bool
    decreases turns.len(),
{
    match step {
        StepView::Finished(_) => true,
        StepView::Call { next, request } => {
            turns.len() > 0 ==> {
                let after = take_turn(next, turns.first()).1;
                let rest = turns.drop_first();
                if request is PutLogEvents && turns.first().reply is InvalidSequenceToken {
                    refusals > 0 && all_answered(after, rest, (refusals - 1) as nat)
                } else {
                    is_answer(request, turns.first().reply) && all_answered(after, rest, refusals)
                }
            }
        },
    }
}

proof fn lemma_answered(caches: CachesView, step: StepView, turns: Seq<Turn>, refusals: nat)
    requires
        call_fits(step),
        all_answered(step, turns, refusals),
        refusals <= (if is_unsent(step) {
            1nat
        } else {
            0
        }),
        calls_left(step) <= turns.len(),
        step is Finished ==> step == StepView::Finished(Ok(())),
    ensures
        settle(caches, step, turns).1 == StepView::Finished(Ok(())),
    decreases turns.len(),
{
    if let StepView::Call { next, request } = step {
        let (caches_after, step_after) = take_turn(next, turns.first());
        assert(calls_left(step_after) < calls_left(step));
        if request is PutLogEvents && turns.first().reply is InvalidSequenceToken {
            lemma_answered(caches_after, step_after, turns.drop_first(), (refusals - 1) as nat);
        } else {
            if step_after is Finished {
                lemma_answered(caches_after, step_after, turns.drop_first(), 0);
            } else {
                lemma_answered(caches_after, step_after, turns.drop_first(), refusals);
            }
        }
    }
}

/// A message is delivered where the service does what every call asks for, whatever the listings
/// hold and even though it refuses the sequence token once.
pub proof fn law_answered_delivery_succeeds(
    caches: CachesView,
    group: Seq<char>,
    stream: Seq<char>,
    message: Seq<char>,
    now: int,
    turns: Seq<Turn>,
)
    requires
        turns.len() >= 7,
        all_answered(delivery::delivery_start(caches, group, stream, message, now), turns, 1),
    ensures
        settle(
            caches,
            delivery::delivery_start(caches, group, stream, message, now),
            turns,
        ).1 == StepView::Finished(Ok(())),
{
    lemma_answered(
        caches,
        delivery::delivery_start(caches, group, stream, message, now),
        turns,
        1,
    );
}

} // verus!
