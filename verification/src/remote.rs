//! The calls to CloudWatch Logs that a delivery asks for, and the replies that it gets.

use vstd::prelude::*;
use vstd::string::*;

verus! {

/// A message with its time stamp, in milliseconds since 1970.
#[derive(Debug)]
pub struct LogEvent {
    pub message: String,
    pub timestamp: i64,
}

/// The model of a [`LogEvent`].
pub struct LogEventView {
    pub message: Seq<char>,
    pub timestamp: int,
}

impl View for LogEvent {
    type V = LogEventView;

    open spec fn view(&self) -> LogEventView {
        LogEventView { message: self.message@, timestamp: self.timestamp as int }
    }
}

impl Clone for LogEvent {
    fn clone(&self) -> (copy: LogEvent)
        ensures
            copy == *self,
    {
        LogEvent { message: self.message.clone(), timestamp: self.timestamp }
    }
}

/// What a listing says of one log stream.
#[derive(Debug)]
pub struct StreamSummary {
    pub name: Option<String>,
    pub upload_sequence_token: Option<String>,
}

/// The model of a [`StreamSummary`].
pub struct StreamSummaryView {
    pub name: Option<Seq<char>>,
    pub upload_sequence_token: Option<Seq<char>>,
}

impl View for StreamSummary {
    type V = StreamSummaryView;

    open spec fn view(&self) -> StreamSummaryView {
        StreamSummaryView {
            name: self.name.deep_view(),
            upload_sequence_token: self.upload_sequence_token.deep_view(),
        }
    }
}

/// A call to CloudWatch Logs.
#[derive(Debug)]
pub enum Request {
    /// List the log groups whose names begin with `prefix`.
    DescribeLogGroups { prefix: String },
    CreateLogGroup { group: String },
    /// List the streams of `group` whose names begin with `prefix`.
    DescribeLogStreams { group: String, prefix: String },
    CreateLogStream { group: String, stream: String },
    /// Append `events`, in their order, to a stream.
    PutLogEvents {
        group: String,
        stream: String,
        sequence_token: Option<String>,
        events: Vec<LogEvent>,
    },
}

/// The model of a [`Request`].
#[verifier::ext_equal]
pub enum RequestView {
    DescribeLogGroups { prefix: Seq<char> },
    CreateLogGroup { group: Seq<char> },
    DescribeLogStreams { group: Seq<char>, prefix: Seq<char> },
    CreateLogStream { group: Seq<char>, stream: Seq<char> },
    PutLogEvents {
        group: Seq<char>,
        stream: Seq<char>,
        sequence_token: Option<Seq<char>>,
        events: Seq<LogEventView>,
    },
}

impl View for Request {
    type V = RequestView;

    open spec fn view(&self) -> RequestView {
        match self {
            Request::DescribeLogGroups { prefix } => RequestView::DescribeLogGroups {
                prefix: prefix@,
            },
            Request::CreateLogGroup { group } => RequestView::CreateLogGroup { group: group@ },
            Request::DescribeLogStreams { group, prefix } => RequestView::DescribeLogStreams {
                group: group@,
                prefix: prefix@,
            },
            Request::CreateLogStream { group, stream } => RequestView::CreateLogStream {
                group: group@,
                stream: stream@,
            },
            Request::PutLogEvents { group, stream, sequence_token, events } => {
                RequestView::PutLogEvents {
                    group: group@,
                    stream: stream@,
                    sequence_token: sequence_token.deep_view(),
                    events: events@.map_values(|event: LogEvent| event@),
                }
            },
        }
    }
}

/// What came back from a call.
#[derive(Debug)]
pub enum Reply {
    /// The names in a listing of log groups; an entry may lack its name.
    LogGroups(Vec<Option<String>>),
    /// The entries in a listing of log streams.
    LogStreams(Vec<StreamSummary>),
    /// The group or stream has been created.
    Created,
    /// The events have been taken, and the next call is to carry this token.
    Accepted(Option<String>),
    /// The events have been refused because of the sequence token that came with them.
    InvalidSequenceToken,
    /// The call has failed in any other way.
    Failed,
}

/// The model of a [`Reply`].
pub enum ReplyView {
    LogGroups(Seq<Option<Seq<char>>>),
    LogStreams(Seq<StreamSummaryView>),
    Created,
    Accepted(Option<Seq<char>>),
    InvalidSequenceToken,
    Failed,
}

/// The model of the names in a listing of log groups.
pub open spec fn group_names(groups: Seq<Option<String>>) -> Seq<Option<Seq<char>>> {
    groups.map_values(|name: Option<String>| name.deep_view())
}

/// The model of a listing of log streams.
pub open spec fn stream_summaries(streams: Seq<StreamSummary>) -> Seq<StreamSummaryView> {
    streams.map_values(|summary: StreamSummary| summary@)
}

impl View for Reply {
    type V = ReplyView;

    open spec fn view(&self) -> ReplyView {
        match self {
            Reply::LogGroups(groups) => ReplyView::LogGroups(group_names(groups@)),
            Reply::LogStreams(streams) => ReplyView::LogStreams(stream_summaries(streams@)),
            Reply::Created => ReplyView::Created,
            Reply::Accepted(token) => ReplyView::Accepted(token.deep_view()),
            Reply::InvalidSequenceToken => ReplyView::InvalidSequenceToken,
            Reply::Failed => ReplyView::Failed,
        }
    }
}

/// Whether a listing of log groups names the group.
pub open spec fn lists_group(groups: Seq<Option<Seq<char>>>, group: Seq<char>) -> bool {
    groups.contains(Some(group))
}

/// Whether entry `i` of a listing of log streams is the stream.
pub open spec fn is_stream_at(
    streams: Seq<StreamSummaryView>,
    stream: Seq<char>,
    i: int,
) -> bool {
    0 <= i < streams.len() && streams[i].name == Some(stream)
}

/// Whether a listing of log streams names the stream.
pub open spec fn lists_stream(streams: Seq<StreamSummaryView>, stream: Seq<char>) -> bool {
    exists|i: int| is_stream_at(streams, stream, i)
}

/// The token that a listing gives for the stream: that of the first entry with its name.
pub open spec fn latest_token(
    streams: Seq<StreamSummaryView>,
    stream: Seq<char>,
) -> Option<Seq<char>>
    decreases streams.len(),
{
    if streams.len() == 0 {
        None
    } else if streams.first().name == Some(stream) {
        streams.first().upload_sequence_token
    } else {
        latest_token(streams.drop_first(), stream)
    }
}

/// Looks for a group in a listing of log groups.
pub fn find_group(groups: &Vec<Option<String>>, group: &String) -> (found: bool)
    ensures
        found == lists_group(group_names(groups@), group@),
{
    let ghost names = group_names(groups@);
    let mut i: usize = 0;
    while i < groups.len()
        invariant
            i <= groups.len(),
            names == group_names(groups@),
            forall|j: int| 0 <= j < i ==> names[j] != Some(group@),
        decreases groups.len() - i,
    {
        if let Some(name) = &groups[i] {
            if *name == *group {
                assert(names[i as int] == Some(group@));
                return true;
            }
        }
        i += 1;
    }
    false
}

/// Looks for a stream in a listing of log streams.
pub fn find_stream(streams: &Vec<StreamSummary>, stream: &String) -> (found: bool)
    ensures
        found == lists_stream(stream_summaries(streams@), stream@),
{
    let ghost entries = stream_summaries(streams@);
    let mut i: usize = 0;
    while i < streams.len()
        invariant
            i <= streams.len(),
            entries == stream_summaries(streams@),
            forall|j: int| 0 <= j < i ==> !is_stream_at(entries, stream@, j),
        decreases streams.len() - i,
    {
        if let Some(name) = &streams[i].name {
            if *name == *stream {
                assert(is_stream_at(entries, stream@, i as int));
                return true;
            }
        }
        i += 1;
    }
    false
}

/// Takes the latest sequence token of a stream from a listing of log streams.
pub fn fetch_latest_stream_token(streams: &Vec<StreamSummary>, stream: &String) -> (token: Option<
    String,
>)
    ensures
        token.deep_view() == latest_token(stream_summaries(streams@), stream@),
{
    let ghost entries = stream_summaries(streams@);
    let mut i: usize = 0;
    assert(entries.skip(0) =~= entries);
    while i < streams.len()
        invariant
            i <= streams.len(),
            entries == stream_summaries(streams@),
            latest_token(entries, stream@) == latest_token(entries.skip(i as int), stream@),
        decreases streams.len() - i,
    {
        let ghost rest = entries.skip(i as int);
        assert(rest.first() == streams[i as int]@);
        assert(rest.drop_first() =~= entries.skip(i + 1));
        if let Some(name) = &streams[i].name {
            if *name == *stream {
                return streams[i].upload_sequence_token.clone();
            }
        }
        i += 1;
    }
    None
}

/// A group is listed exactly where some entry of the listing bears its name.
pub proof fn law_group_listed(groups: Seq<Option<Seq<char>>>, group: Seq<char>)
    ensures
        lists_group(groups, group) <==> exists|i: int|
            0 <= i < groups.len() && #[trigger] groups[i] == Some(group),
{
}

/// A stream is listed exactly where some entry of the listing bears its name.
pub proof fn law_stream_listed(streams: Seq<StreamSummaryView>, stream: Seq<char>)
    ensures
        lists_stream(streams, stream) <==> exists|i: int|
            0 <= i < streams.len() && (#[trigger] streams[i]).name == Some(stream),
{
    if exists|i: int| 0 <= i < streams.len() && (#[trigger] streams[i]).name == Some(stream) {
        let i = choose|i: int|
            0 <= i < streams.len() && (#[trigger] streams[i]).name == Some(stream);
        assert(is_stream_at(streams, stream, i));
    }
}

/// The token of a stream is that of the first entry that bears its name.
pub proof fn law_token_of_first_entry(
    streams: Seq<StreamSummaryView>,
    stream: Seq<char>,
    first: int,
)
    requires
        0 <= first < streams.len(),
        streams[first].name == Some(stream),
        forall|i: int| 0 <= i < first ==> (#[trigger] streams[i]).name != Some(stream),
    ensures
        latest_token(streams, stream) == streams[first].upload_sequence_token,
    decreases streams.len(),
{
    if first > 0 {
        assert(streams[0].name != Some(stream));
        law_token_of_first_entry(streams.drop_first(), stream, first - 1);
    }
}

/// A stream that no entry names has no token.
pub proof fn law_no_token_where_not_listed(streams: Seq<StreamSummaryView>, stream: Seq<char>)
    requires
        forall|i: int| 0 <= i < streams.len() ==> (#[trigger] streams[i]).name != Some(stream),
    ensures
        latest_token(streams, stream) is None,
    decreases streams.len(),
{
    if streams.len() > 0 {
        assert(streams[0].name != Some(stream));
        law_no_token_where_not_listed(streams.drop_first(), stream);
    }
}

/// The model of an event holds its text and its time stamp.
pub proof fn law_event_model(event: LogEvent)
    ensures
        event@.message == event.message@,
        event@.timestamp == event.timestamp,
{
}

/// The model of a call holds the texts of the call, and its events in their order.
pub proof fn law_request_model(request: Request)
    ensures
        request matches Request::DescribeLogGroups { prefix } ==> request@
            == (RequestView::DescribeLogGroups { prefix: prefix@ }),
        request matches Request::CreateLogGroup { group } ==> request@
            == (RequestView::CreateLogGroup { group: group@ }),
        request matches Request::DescribeLogStreams { group, prefix } ==> request@
            == (RequestView::DescribeLogStreams { group: group@, prefix: prefix@ }),
        request matches Request::CreateLogStream { group, stream } ==> request@
            == (RequestView::CreateLogStream { group: group@, stream: stream@ }),
        request matches Request::PutLogEvents { group, stream, sequence_token, events } ==> {
            &&& request@ matches RequestView::PutLogEvents {
                group: model_group,
                stream: model_stream,
                sequence_token: model_token,
                events: model_events,
            }
            &&& model_group == group@
            &&& model_stream == stream@
            &&& model_token is Some <==> sequence_token is Some
            &&& sequence_token matches Some(token) ==> model_token == Some(token@)
            &&& model_events.len() == events@.len()
            &&& forall|i: int|
                0 <= i < events@.len() ==> (#[trigger] model_events[i]).message
                    == events@[i].message@ && model_events[i].timestamp == events@[i].timestamp
        },
{
}

/// The model of a reply holds all that the reply says: every entry of a listing in its place, and
/// the token.
pub proof fn law_reply_model(reply: Reply)
    ensures
        reply matches Reply::LogGroups(groups) ==> {
            &&& reply@ matches ReplyView::LogGroups(names)
            &&& names.len() == groups@.len()
            &&& forall|i: int|
                0 <= i < names.len() ==> (#[trigger] names[i]) == (match groups@[i] {
                    Some(name) => Some(name@),
                    None => None,
                })
        },
        reply matches Reply::LogStreams(streams) ==> {
            &&& reply@ matches ReplyView::LogStreams(entries)
            &&& entries.len() == streams@.len()
            &&& forall|i: int|
                0 <= i < entries.len() ==> (#[trigger] entries[i]).name == (match streams@[i].name {
                    Some(name) => Some(name@),
                    None => None,
                }) && entries[i].upload_sequence_token == (match streams@[i].upload_sequence_token {
                    Some(token) => Some(token@),
                    None => None,
                })
        },
        reply is Created <==> reply@ is Created,
        reply matches Reply::Accepted(token) ==> reply@ == ReplyView::Accepted(
            match token {
                Some(text) => Some(text@),
                None => None,
            },
        ),
        reply is InvalidSequenceToken <==> reply@ is InvalidSequenceToken,
        reply is Failed <==> reply@ is Failed,
{
}

} // verus!
