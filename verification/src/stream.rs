//! The log streams that messages are sorted into.

use vstd::prelude::*;
use vstd::string::*;

use crate::calendar;
use crate::clock;
use crate::level::Level;
use crate::text;

verus! {

/// The categories of log streams: those that levels are sorted into, and streams with a name of
/// the caller's choice.
pub enum LogStream {
    ServerResponses,
    ClientResponses,
    RedirectionResponses,
    SuccessfulResponses,
    InformationalResponses,
    UnknownOrUnassigned,
    Custom(String),
}

/// The name of a stream on a day: the date, a hyphen and the base name of the stream.
pub open spec fn dated_name(base: Seq<char>, millis: int) -> Seq<char> {
    clock::date_text(millis) + "-"@ + base
}

/// The stream that messages of a level are sorted into.
pub open spec fn stream_of(level: Level) -> LogStream {
    match level {
        Level::Error | Level::Debug | Level::Trace => LogStream::ServerResponses,
        Level::Warn => LogStream::ClientResponses,
        Level::Info => LogStream::InformationalResponses,
    }
}

/// Whether a predefined category has this name.
pub open spec fn is_predefined(name: Seq<char>) -> bool {
    ||| name == "Server_Responses"@
    ||| name == "Client_Responses"@
    ||| name == "Redirection_Responses"@
    ||| name == "Successful_Responses"@
    ||| name == "Informational_Responses"@
    ||| name == "Unknown_Or_Unassigned"@
}

/// Streams are partitioned by day: two dated names are the same exactly where the time stamps fall
/// on the same UTC day and the base names are the same.
pub proof fn law_daily_partition(
    left: Seq<char>,
    left_millis: int,
    right: Seq<char>,
    right_millis: int,
)
    ensures
        dated_name(left, left_millis) == dated_name(right, right_millis) <==> left == right
            && calendar::utc_day(left_millis) == calendar::utc_day(right_millis),
{
    let (left_day, right_day) = (calendar::utc_day(left_millis), calendar::utc_day(right_millis));
    reveal_strlit("-");
    assert("-"@ =~= seq!['-']);
    calendar::lemma_civil_date(left_day);
    calendar::lemma_civil_date(right_day);
    if dated_name(left, left_millis) == dated_name(right, right_millis) {
        calendar::lemma_date_text_read_back(
            calendar::civil_date(left_day),
            left,
            calendar::civil_date(right_day),
            right,
        );
    }
}

/// Turning a stream into its name and back gives the stream again, unless it is a custom stream
/// that bears the name of a predefined category.
pub proof fn law_name_read_back(stream: LogStream, again: LogStream)
    requires
        again.has_name(stream.name()),
        stream is Custom ==> !is_predefined(stream.name()),
    ensures
        again.name() == stream.name(),
        again is Custom <==> stream is Custom,
        again is ServerResponses <==> stream is ServerResponses,
        again is ClientResponses <==> stream is ClientResponses,
        again is RedirectionResponses <==> stream is RedirectionResponses,
        again is SuccessfulResponses <==> stream is SuccessfulResponses,
        again is InformationalResponses <==> stream is InformationalResponses,
        again is UnknownOrUnassigned <==> stream is UnknownOrUnassigned,
{
    lemma_names_distinct();
}

/// The names of the predefined categories differ from one another.
proof fn lemma_names_distinct()
    ensures
        "Server_Responses"@ != "Client_Responses"@,
        "Server_Responses"@ != "Redirection_Responses"@,
        "Server_Responses"@ != "Successful_Responses"@,
        "Server_Responses"@ != "Informational_Responses"@,
        "Server_Responses"@ != "Unknown_Or_Unassigned"@,
        "Client_Responses"@ != "Redirection_Responses"@,
        "Client_Responses"@ != "Successful_Responses"@,
        "Client_Responses"@ != "Informational_Responses"@,
        "Client_Responses"@ != "Unknown_Or_Unassigned"@,
        "Redirection_Responses"@ != "Successful_Responses"@,
        "Redirection_Responses"@ != "Informational_Responses"@,
        "Redirection_Responses"@ != "Unknown_Or_Unassigned"@,
        "Successful_Responses"@ != "Informational_Responses"@,
        "Successful_Responses"@ != "Unknown_Or_Unassigned"@,
        "Informational_Responses"@ != "Unknown_Or_Unassigned"@,
{
    reveal_strlit("Server_Responses");
    reveal_strlit("Client_Responses");
    reveal_strlit("Redirection_Responses");
    reveal_strlit("Successful_Responses");
    reveal_strlit("Informational_Responses");
    reveal_strlit("Unknown_Or_Unassigned");
    assert("Successful_Responses"@.len() == 20);
    assert("Server_Responses"@[0] != "Client_Responses"@[0]);
    assert("Redirection_Responses"@[0] != "Unknown_Or_Unassigned"@[0]);
}

impl LogStream {
    /// The base name of the stream, from which its dated names are built.
    pub open spec fn name(&self) -> Seq<char> {
        match self {
            LogStream::ServerResponses => "Server_Responses"@,
            LogStream::ClientResponses => "Client_Responses"@,
            LogStream::RedirectionResponses => "Redirection_Responses"@,
            LogStream::SuccessfulResponses => "Successful_Responses"@,
            LogStream::InformationalResponses => "Informational_Responses"@,
            LogStream::UnknownOrUnassigned => "Unknown_Or_Unassigned"@,
            LogStream::Custom(name) => name@,
        }
    }

    /// Whether the stream is the one that a base name stands for: the predefined category with
    /// that name, or else the custom stream.
    pub open spec fn has_name(&self, name: Seq<char>) -> bool {
        &&& self is ServerResponses <==> name == "Server_Responses"@
        &&& self is ClientResponses <==> name == "Client_Responses"@
        &&& self is RedirectionResponses <==> name == "Redirection_Responses"@
        &&& self is SuccessfulResponses <==> name == "Successful_Responses"@
        &&& self is InformationalResponses <==> name == "Informational_Responses"@
        &&& self is UnknownOrUnassigned <==> name == "Unknown_Or_Unassigned"@
        &&& self matches LogStream::Custom(own) ==> own@ == name
    }

    /// Returns the base name of the stream.
    pub fn as_str(&self) -> (name: &str)
        ensures
            name@ == self.name(),
    {
        match self {
            LogStream::ServerResponses => "Server_Responses",
            LogStream::ClientResponses => "Client_Responses",
            LogStream::RedirectionResponses => "Redirection_Responses",
            LogStream::SuccessfulResponses => "Successful_Responses",
            LogStream::InformationalResponses => "Informational_Responses",
            LogStream::UnknownOrUnassigned => "Unknown_Or_Unassigned",
            LogStream::Custom(name) => name.as_str(),
        }
    }

    /// Returns the stream with the given base name: a predefined category where one has that
    /// name, a custom stream otherwise.
    pub fn from_string(stream_name: String) -> (stream: LogStream)
        ensures
            stream.has_name(stream_name@),
            stream.name() == stream_name@,
            stream is Custom <==> !is_predefined(stream_name@),
    {
        proof {
            lemma_names_distinct();
        }
        let name = stream_name.as_str();
        if text::same_text(name, "Server_Responses") {
            LogStream::ServerResponses
        } else if text::same_text(name, "Client_Responses") {
            LogStream::ClientResponses
        } else if text::same_text(name, "Redirection_Responses") {
            LogStream::RedirectionResponses
        } else if text::same_text(name, "Successful_Responses") {
            LogStream::SuccessfulResponses
        } else if text::same_text(name, "Informational_Responses") {
            LogStream::InformationalResponses
        } else if text::same_text(name, "Unknown_Or_Unassigned") {
            LogStream::UnknownOrUnassigned
        } else {
            LogStream::Custom(stream_name)
        }
    }

    /// Sorts a level into its stream: warnings go to the client responses, information to the
    /// informational ones, and errors and everything more verbose than information to the server
    /// responses.
    pub fn from_level(level: &Level) -> (stream: LogStream)
        ensures
            stream == stream_of(*level),
    {
        match level {
            Level::Error => LogStream::ServerResponses,
            Level::Warn => LogStream::ClientResponses,
            Level::Info => LogStream::InformationalResponses,
            Level::Debug => LogStream::ServerResponses,
            Level::Trace => LogStream::ServerResponses,
        }
    }

    /// Returns the name that the stream has on the UTC day of the time stamp, such as
    /// `2025-01-21-Server_Responses`.
    pub fn with_date_at(&self, millis: i64) -> (name: String)
        requires
            clock::representable(millis as int),
        ensures
            name@ == dated_name(self.name(), millis as int),
    {
        let mut name = clock::format_utc(millis, "%Y-%m-%d");
        name.append("-");
        name.append(self.as_str());
        name
    }

    /// Returns the name that the stream has today: on the day of a time that the clock has shown.
    pub fn with_date(&self) -> (name: String)
        ensures
            exists|now: i64|
                #![trigger clock::clock_reading(now as int)]
                clock::clock_reading(now as int) && clock::shown_by_clock(now as int) && name@
                    == dated_name(self.name(), now as int),
    {
        let now: i64 = clock::utc_now_millis();
        self.with_date_at(now)
    }
}

/// A dated name is the date, a hyphen and the whole base name.
pub proof fn law_dated_name_parts(base: Seq<char>, millis: int)
    ensures
        ({
            let whole = dated_name(base, millis);
            let date = clock::date_text(millis);
            &&& whole.len() == date.len() + 1 + base.len()
            &&& whole.subrange(0, date.len() as int) == date
            &&& whole[date.len() as int] == '-'
            &&& whole.skip(date.len() as int + 1) == base
        }),
{
    reveal_strlit("-");
    let whole = dated_name(base, millis);
    let date = clock::date_text(millis);
    assert(whole.subrange(0, date.len() as int) =~= date);
    assert(whole.skip(date.len() as int + 1) =~= base);
}

/// Warnings are client responses, information is informational, and all other levels are server
/// responses.
pub proof fn law_levels_sorted(level: Level)
    ensures
        stream_of(level) is ClientResponses <==> level is Warn,
        stream_of(level) is InformationalResponses <==> level is Info,
        stream_of(level) is ServerResponses <==> level is Error || level is Debug || level is Trace,
{
}

/// The predefined categories have their own names, which are the predefined ones; a custom stream
/// has the name that it was given.
pub proof fn law_category_names(stream: LogStream, name: Seq<char>)
    ensures
        LogStream::ServerResponses.name() == "Server_Responses"@,
        LogStream::ClientResponses.name() == "Client_Responses"@,
        LogStream::RedirectionResponses.name() == "Redirection_Responses"@,
        LogStream::SuccessfulResponses.name() == "Successful_Responses"@,
        LogStream::InformationalResponses.name() == "Informational_Responses"@,
        LogStream::UnknownOrUnassigned.name() == "Unknown_Or_Unassigned"@,
        stream matches LogStream::Custom(own) ==> stream.name() == own@,
        stream !is Custom ==> is_predefined(stream.name()),
        is_predefined(name) ==> {
            ||| name == LogStream::ServerResponses.name()
            ||| name == LogStream::ClientResponses.name()
            ||| name == LogStream::RedirectionResponses.name()
            ||| name == LogStream::SuccessfulResponses.name()
            ||| name == LogStream::InformationalResponses.name()
            ||| name == LogStream::UnknownOrUnassigned.name()
        },
{
}

} // verus!
