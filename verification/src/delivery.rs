//! The delivery of one message to CloudWatch Logs, as a sequence of calls and replies.
//!
//! [`custom_cloudwatch_log`] begins a delivery. Each [`Step`] names the next call; its reply goes
//! to [`Delivery::resume`], until the delivery has finished.

use vstd::prelude::*;
use vstd::string::*;

use crate::cache::{Caches, CachesView};
use crate::clock;
use crate::ensure;
use crate::ensure::{EnsureStep, EnsureStepView, Ensuring, EnsuringView};
use crate::level::Level;
use crate::put;
use crate::put::{PutStep, PutStepView, Putting, PuttingView};
use crate::record;
use crate::remote::{LogEvent, LogEventView, Reply, ReplyView, Request, RequestView};
use crate::stream;
use crate::stream::LogStream;

verus! {

/// Why a message has not been delivered.
#[derive(Debug)]
pub enum Error {
    /// This environment variable is not set.
    EnvVarMissing(String),
    /// A call has failed.
    AwsConfig,
}

/// The model of an [`Error`].
pub enum ErrorView {
    EnvVarMissing(Seq<char>),
    AwsConfig,
}

impl View for Error {
    type V = ErrorView;

    open spec fn view(&self) -> ErrorView {
        match self {
            Error::EnvVarMissing(name) => ErrorView::EnvVarMissing(name@),
            Error::AwsConfig => ErrorView::AwsConfig,
        }
    }
}

/// A delivery while a reply is awaited.
#[derive(Debug)]
pub enum Delivery {
    /// The group and the stream are being looked up or created; `message` is yet to be sent.
    Ensuring { ensuring: Ensuring, message: String },
    /// The event is being sent.
    Putting { putting: Putting },
}

/// The model of a [`Delivery`].
pub enum DeliveryView {
    Ensuring { ensuring: EnsuringView, message: Seq<char> },
    Putting { putting: PuttingView },
}

impl View for Delivery {
    type V = DeliveryView;

    open spec fn view(&self) -> DeliveryView {
        match self {
            Delivery::Ensuring { ensuring, message } => DeliveryView::Ensuring {
                ensuring: ensuring@,
                message: message@,
            },
            Delivery::Putting { putting } => DeliveryView::Putting { putting: putting@ },
        }
    }
}

/// What is to be done next.
#[derive(Debug)]
pub enum Step {
    /// Make a call, and go on with its reply.
    Call { next: Delivery, request: Request },
    /// The message has been delivered, or has not.
    Finished(Result<(), Error>),
}

/// The model of a [`Step`].
#[verifier::ext_equal]
pub enum StepView {
    Call { next: DeliveryView, request: RequestView },
    Finished(Result<(), ErrorView>),
}

impl View for Step {
    type V = StepView;

    open spec fn view(&self) -> StepView {
        match self {
            Step::Call { next, request } => StepView::Call { next: next@, request: request@ },
            Step::Finished(Ok(())) => StepView::Finished(Ok(())),
            Step::Finished(Err(error)) => StepView::Finished(Err(error@)),
        }
    }
}

/// The step that the work on the event asks for.
pub open spec fn after_put(step: PutStepView) -> StepView {
    match step {
        PutStepView::Call { next, request } => StepView::Call {
            next: DeliveryView::Putting { putting: next },
            request,
        },
        PutStepView::Delivered => StepView::Finished(Ok(())),
        PutStepView::Failed => StepView::Finished(Err(ErrorView::AwsConfig)),
    }
}

/// The step that the work on the group and the stream asks for. Once they exist, the message is
/// stamped with the time `now` and sent.
pub open spec fn after_ensure(
    caches: CachesView,
    step: EnsureStepView,
    message: Seq<char>,
    now: int,
) -> StepView {
    match step {
        EnsureStepView::Call { next, request } => StepView::Call {
            next: DeliveryView::Ensuring { ensuring: next, message },
            request,
        },
        EnsureStepView::Ready { group, stream } => after_put(
            put::put_start(caches, group, stream, LogEventView { message, timestamp: now }),
        ),
        EnsureStepView::Failed => StepView::Finished(Err(ErrorView::AwsConfig)),
    }
}

/// The first step of the delivery of a message to a stream.
pub open spec fn delivery_start(
    caches: CachesView,
    group: Seq<char>,
    stream: Seq<char>,
    message: Seq<char>,
    now: int,
) -> StepView {
    after_ensure(caches, ensure::ensure_start(caches, group, stream), message, now)
}

/// The caches and the step that follow a reply at the time `now`.
pub open spec fn delivery_next(
    state: DeliveryView,
    caches: CachesView,
    reply: ReplyView,
    now: int,
) -> (CachesView, StepView) {
    match state {
        DeliveryView::Ensuring { ensuring, message } => {
            let (caches_after, step) = ensure::ensure_next(ensuring, caches, reply);
            (caches_after, after_ensure(caches_after, step, message, now))
        },
        DeliveryView::Putting { putting } => {
            let (caches_after, step) = put::put_next(putting, caches, reply);
            (caches_after, after_put(step))
        },
    }
}

/// Hands on what the work on the event asks for.
fn follow_put(step: PutStep) -> (whole: Step)
    ensures
        whole@ == after_put(step@),
{
    match step {
        PutStep::Call { next, request } => Step::Call {
            next: Delivery::Putting { putting: next },
            request,
        },
        PutStep::Delivered => Step::Finished(Ok(())),
        PutStep::Failed => Step::Finished(Err(Error::AwsConfig)),
    }
}

/// Hands on what the work on the group and the stream asks for, and sends the message once they
/// exist.
fn follow_ensure(caches: &Caches, step: EnsureStep, message: String, now: i64) -> (whole: Step)
    ensures
        whole@ == after_ensure(caches@, step@, message@, now as int),
{
    match step {
        EnsureStep::Call { next, request } => Step::Call {
            next: Delivery::Ensuring { ensuring: next, message },
            request,
        },
        EnsureStep::Ready { group, stream } => follow_put(
            handle_logging_operation_at(caches, group, stream, message, now),
        ),
        EnsureStep::Failed => Step::Finished(Err(Error::AwsConfig)),
    }
}

/// Hands on what the work on the group and the stream asks for, and sends the message once they
/// exist. The clock is read only to stamp the message.
fn follow_ensure_now(caches: &Caches, step: EnsureStep, message: String) -> (whole: Step)
    ensures
        exists|now: i64|
            #![trigger clock::clock_reading(now as int)]
            clock::clock_reading(now as int) && whole@ == after_ensure(
                caches@,
                step@,
                message@,
                now as int,
            ) && (step@ is Ready ==> clock::shown_by_clock(now as int)),
{
    match step {
        EnsureStep::Ready { group, stream } => follow_put(
            handle_logging_operation(caches, group, stream, message),
        ),
        EnsureStep::Call { next, request } => {
            // Nothing is stamped yet, so the step is the same at every time.
            assert(clock::clock_reading(0i64 as int));
            Step::Call { next: Delivery::Ensuring { ensuring: next, message }, request }
        },
        EnsureStep::Failed => {
            assert(clock::clock_reading(0i64 as int));
            Step::Finished(Err(Error::AwsConfig))
        },
    }
}

/// Makes an event of a message and the time `now`, and begins to append it to the stream.
pub fn handle_logging_operation_at(
    caches: &Caches,
    group: String,
    stream: String,
    message: String,
    now: i64,
) -> (step: PutStep)
    ensures
        step@ == put::put_start(
            caches@,
            group@,
            stream@,
            LogEventView { message: message@, timestamp: now as int },
        ),
{
    let log_event = LogEvent { message, timestamp: now };
    put::put_log_events_with_retry(caches, group, stream, log_event)
}

/// Makes an event of a message and the current time, and begins to append it to the stream.
pub fn handle_logging_operation(
    caches: &Caches,
    group: String,
    stream: String,
    message: String,
) -> (step: PutStep)
    ensures
        exists|now: i64|
            #![trigger clock::clock_reading(now as int)]
            clock::clock_reading(now as int) && clock::shown_by_clock(now as int) && step@
                == put::put_start(
                caches@,
                group@,
                stream@,
                LogEventView { message: message@, timestamp: now as int },
            ),
{
    let now: i64 = clock::utc_now_millis();
    handle_logging_operation_at(caches, group, stream, message, now)
}

/// Begins to deliver a message to the stream that has the day of `dated` in its name. Where
/// nothing has to be looked up, the message is sent at once, stamped with the time `now`.
pub fn begin_delivery(
    caches: &Caches,
    log_group: String,
    level: Level,
    message: &str,
    log_stream: &LogStream,
    file: &str,
    line: u32,
    dated: i64,
    now: i64,
) -> (step: Step)
    requires
        clock::representable(dated as int),
    ensures
        step@ == delivery_start(
            caches@,
            log_group@,
            stream::dated_name(log_stream.name(), dated as int),
            record::record(level, message@, file@, line as nat),
            now as int,
        ),
{
    let log_stream_name = log_stream.with_date_at(dated);
    let whole = record::record_text(level, message, file, line);
    let step = ensure::ensure_log_stream_exists(caches, log_group, log_stream_name);
    follow_ensure(caches, step, whole, now)
}

/// Begins to deliver a message to today's stream of a category.
///
/// `log_group` is the value of the environment variable `AWS_LOG_GROUP`. Without it the delivery
/// ends at once with an error that names the variable. The stream is that of a day that the clock
/// has shown, and an event that is sent at once bears a time that the clock has shown.
pub fn custom_cloudwatch_log(
    caches: &Caches,
    log_group: Option<String>,
    level: Level,
    message: &str,
    log_stream: &LogStream,
    file: &str,
    line: u32,
) -> (step: Step)
    ensures
        match log_group {
            None => step@ == StepView::Finished(
                Err(ErrorView::EnvVarMissing("AWS_LOG_GROUP"@)),
            ),
            Some(group) => exists|dated: i64, now: i64|
                #![trigger clock::clock_reading(dated as int), clock::clock_reading(now as int)]
                clock::clock_reading(dated as int) && clock::shown_by_clock(dated as int)
                    && clock::clock_reading(now as int) && step@ == delivery_start(
                    caches@,
                    group@,
                    stream::dated_name(log_stream.name(), dated as int),
                    record::record(level, message@, file@, line as nat),
                    now as int,
                ) && (step@ matches StepView::Call { next: DeliveryView::Putting { .. }, .. }
                    ==> clock::shown_by_clock(now as int)),
        },
{
    match log_group {
        None => Step::Finished(Err(Error::EnvVarMissing("AWS_LOG_GROUP".to_owned()))),
        Some(group) => {
            let log_stream_name = log_stream.with_date();
            let whole = record::record_text(level, message, file, line);
            let step = ensure::ensure_log_stream_exists(caches, group, log_stream_name);
            follow_ensure_now(caches, step, whole)
        },
    }
}

impl Delivery {
    /// Goes on with the reply to the awaited call, at the time `now`.
    pub fn resume_at(self, caches: &mut Caches, reply: Reply, now: i64) -> (step: Step)
        ensures
            (final(caches)@, step@) == delivery_next(self@, old(caches)@, reply@, now as int),
    {
        match self {
            Delivery::Ensuring { ensuring, message } => {
                let step = ensuring.resume(caches, reply);
                follow_ensure(caches, step, message, now)
            },
            Delivery::Putting { putting } => {
                let step = putting.resume(caches, reply);
                follow_put(step)
            },
        }
    }

    /// Goes on with the reply to the awaited call. The clock is read only to stamp the message, once
    /// the group and the stream exist; the stamp is a time that it has shown.
    pub fn resume(self, caches: &mut Caches, reply: Reply) -> (step: Step)
        ensures
            exists|now: i64|
                #![trigger clock::clock_reading(now as int)]
                clock::clock_reading(now as int) && (final(caches)@, step@) == delivery_next(
                    self@,
                    old(caches)@,
                    reply@,
                    now as int,
                ) && (self@ is Ensuring ==> (step@ matches StepView::Call {
                    next: DeliveryView::Putting { .. },
                    ..
                } ==> clock::shown_by_clock(now as int))),
    {
        match self {
            Delivery::Ensuring { ensuring, message } => {
                let step = ensuring.resume(caches, reply);
                follow_ensure_now(caches, step, message)
            },
            Delivery::Putting { putting } => {
                let step = putting.resume(caches, reply);
                // The event has its stamp, so the step is the same at every time.
                assert(clock::clock_reading(0i64 as int));
                follow_put(step)
            },
        }
    }
}

/// The model of an error says which error it is, and names the variable that is missing.
pub proof fn law_error_model(error: Error)
    ensures
        error is AwsConfig <==> error@ is AwsConfig,
        error matches Error::EnvVarMissing(name) ==> error@ == ErrorView::EnvVarMissing(name@),
{
}

/// The model of a step holds what the step says.
pub proof fn law_step_model(step: Step)
    ensures
        step matches Step::Call { next, request } ==> {
            &&& step@ matches StepView::Call { next: model, request: model_request }
            &&& model_request == request@
            &&& next matches Delivery::Ensuring { ensuring, message } ==> model
                == (DeliveryView::Ensuring {
                ensuring: EnsuringView {
                    group: ensuring.group@,
                    stream: ensuring.stream@,
                    phase: ensuring.phase,
                },
                message: message@,
            })
            &&& next matches Delivery::Putting { putting } ==> model == (DeliveryView::Putting {
                putting: PuttingView {
                    group: putting.group@,
                    stream: putting.stream@,
                    event: LogEventView {
                        message: putting.event.message@,
                        timestamp: putting.event.timestamp as int,
                    },
                    phase: putting.phase,
                },
            })
        },
        step matches Step::Finished(result) ==> {
            &&& step@ matches StepView::Finished(model)
            &&& result is Ok <==> model is Ok
            &&& result matches Err(error) ==> model == Err::<(), ErrorView>(error@)
        },
{
}

} // verus!
