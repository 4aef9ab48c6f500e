//! Where a message goes: to CloudWatch Logs or to the console.

use vstd::prelude::*;
use vstd::string::*;

use crate::level;
use crate::level::Level;
use crate::stream;
use crate::stream::LogStream;
use crate::text;

verus! {

/// What becomes of a message.
pub enum Dispatch {
    /// The message is delivered to a log stream.
    CloudWatch { log_stream: LogStream, message: String },
    /// This line is printed.
    Console(String),
}

/// Whether the environment variable `LOG_TO_CLOUDWATCH` sends messages to CloudWatch Logs: it has
/// to be set to `true`.
pub open spec fn to_cloudwatch(switch: Option<Seq<char>>) -> bool {
    switch == Some("true"@)
}

/// `LEVEL: message`.
pub open spec fn console_line(level: Level, message: Seq<char>) -> Seq<char> {
    level.text() + ": "@ + message
}

/// `stream ::LEVEL: message`.
pub open spec fn custom_console_line(
    level: Level,
    log_stream: Seq<char>,
    message: Seq<char>,
) -> Seq<char> {
    log_stream + " ::"@ + console_line(level, message)
}

/// Reads the value of `LOG_TO_CLOUDWATCH`.
pub fn logs_to_cloudwatch(switch: &Option<String>) -> (enabled: bool)
    ensures
        enabled == to_cloudwatch(switch.deep_view()),
{
    match switch {
        Some(value) => text::same_text(value.as_str(), "true"),
        None => false,
    }
}

/// Writes the line that stands for a message on the console.
fn console_text(level: Level, message: &str) -> (line: String)
    ensures
        line@ == console_line(level, message@),
{
    let mut line = level.label().to_owned();
    line.append(": ");
    line.append(message);
    line
}

/// Decides on a message of a level. `switch` is the value of `LOG_TO_CLOUDWATCH`.
pub fn log(switch: &Option<String>, level: Level, message: String) -> (dispatch: Dispatch)
    ensures
        if to_cloudwatch(switch.deep_view()) {
            dispatch == (Dispatch::CloudWatch { log_stream: stream::stream_of(level), message })
        } else {
            dispatch matches Dispatch::Console(line) && line@ == console_line(level, message@)
        },
{
    if logs_to_cloudwatch(switch) {
        Dispatch::CloudWatch { log_stream: LogStream::from_level(&level), message }
    } else {
        Dispatch::Console(console_text(level, message.as_str()))
    }
}

/// Decides on a message for a stream with a name of the caller's choice. `switch` is the value of
/// `LOG_TO_CLOUDWATCH`.
pub fn log_custom(
    switch: &Option<String>,
    level: Level,
    log_stream: String,
    message: String,
) -> (dispatch: Dispatch)
    ensures
        if to_cloudwatch(switch.deep_view()) {
            dispatch == (Dispatch::CloudWatch {
                log_stream: LogStream::Custom(log_stream),
                message,
            })
        } else {
            dispatch matches Dispatch::Console(line) && line@ == custom_console_line(
                level,
                log_stream@,
                message@,
            )
        },
{
    if logs_to_cloudwatch(switch) {
        Dispatch::CloudWatch { log_stream: LogStream::Custom(log_stream), message }
    } else {
        let rest = console_text(level, message.as_str());
        let mut line = log_stream;
        line.append(" ::");
        line.append(rest.as_str());
        Dispatch::Console(line)
    }
}

/// Messages go to CloudWatch Logs exactly where the variable is set to the four letters of `true`.
pub proof fn law_switch(switch: Option<Seq<char>>)
    ensures
        to_cloudwatch(switch) <==> (switch matches Some(value) && value == seq![
            't',
            'r',
            'u',
            'e',
        ]),
{
    reveal_strlit("true");
    assert("true"@ =~= seq!['t', 'r', 'u', 'e']);
}

/// A line on the console is the name of the level, a colon and a blank, and the whole message.
pub proof fn law_console_line_parts(level: Level, message: Seq<char>)
    ensures
        ({
            let line = console_line(level, message);
            let at_message: int = level.text().len() as int + 2;
            &&& line.len() == at_message + message.len()
            &&& line.subrange(0, at_message - 2) == level.text()
            &&& line[at_message - 2] == ':'
            &&& line[at_message - 1] == ' '
            &&& line.skip(at_message) == message
        }),
{
    reveal_strlit(": ");
    let line = console_line(level, message);
    let at_message: int = level.text().len() as int + 2;
    assert(line.subrange(0, at_message - 2) =~= level.text());
    assert(line.skip(at_message) =~= message);
}

/// A line for a custom stream is the name of the stream, a blank and two colons, the name of the
/// level, a colon and a blank, and the whole message.
pub proof fn law_custom_console_line_parts(
    level: Level,
    log_stream: Seq<char>,
    message: Seq<char>,
)
    ensures
        ({
            let line = custom_console_line(level, log_stream, message);
            let at_level: int = log_stream.len() as int + 3;
            let at_message: int = at_level + level.text().len() + 2;
            &&& line.len() == at_message + message.len()
            &&& line.subrange(0, at_level - 3) == log_stream
            &&& line.subrange(at_level - 3, at_level) == seq![' ', ':', ':']
            &&& line.subrange(at_level, at_message - 2) == level.text()
            &&& line[at_message - 2] == ':'
            &&& line[at_message - 1] == ' '
            &&& line.skip(at_message) == message
        }),
{
    reveal_strlit(" ::");
    reveal_strlit(": ");
    let line = custom_console_line(level, log_stream, message);
    let at_level: int = log_stream.len() as int + 3;
    let at_message: int = at_level + level.text().len() + 2;
    assert(line.subrange(0, at_level - 3) =~= log_stream);
    assert(line.subrange(at_level - 3, at_level) =~= seq![' ', ':', ':']);
    assert(line.subrange(at_level, at_message - 2) =~= level.text());
    assert(line.skip(at_message) =~= message);
}

/// Lines tell the level and the message: for one stream, and for none, two of them are the same only
/// where both are.
pub proof fn law_console_lines_told_apart(
    log_stream: Seq<char>,
    left: Level,
    left_message: Seq<char>,
    right: Level,
    right_message: Seq<char>,
)
    ensures
        console_line(left, left_message) == console_line(right, right_message) <==> left == right
            && left_message == right_message,
        custom_console_line(left, log_stream, left_message) == custom_console_line(
            right,
            log_stream,
            right_message,
        ) <==> left == right && left_message == right_message,
{
    law_console_line_parts(left, left_message);
    law_console_line_parts(right, right_message);
    law_custom_console_line_parts(left, log_stream, left_message);
    law_custom_console_line_parts(right, log_stream, right_message);
    level::lemma_first_letters(left);
    level::lemma_first_letters(right);
    let at_level: int = log_stream.len() as int + 3;
    assert(console_line(left, left_message)[0] == left.text()[0]);
    assert(console_line(right, right_message)[0] == right.text()[0]);
    assert(custom_console_line(left, log_stream, left_message)[at_level] == left.text()[0]);
    assert(custom_console_line(right, log_stream, right_message)[at_level] == right.text()[0]);
}

} // verus!
