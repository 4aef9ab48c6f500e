//! The text of a log record: the message with its level and the place that it came from.

use vstd::prelude::*;
use vstd::string::*;

use crate::level;
use crate::level::Level;
use crate::text;

verus! {

/// `LEVEL - message (File: file, Line: line)`.
pub open spec fn record(level: Level, message: Seq<char>, file: Seq<char>, line: nat) -> Seq<char> {
    level.text() + " - "@ + message + " (File: "@ + file + ", Line: "@ + text::decimal(line) + ")"@
}

/// Writes a message with its level and the place in the source that it came from.
pub fn record_text(level: Level, message: &str, file: &str, line: u32) -> (whole: String)
    ensures
        whole@ == record(level, message@, file@, line as nat),
{
    let number = text::decimal_text(line);
    let mut whole = level::display_level(level);
    whole.append(" - ");
    whole.append(message);
    whole.append(" (File: ");
    whole.append(file);
    whole.append(", Line: ");
    whole.append(number.as_str());
    whole.append(")");
    whole
}

/// A record holds its parts whole and in their order: the name of the level, ` - `, the message,
/// ` (File: `, the file, `, Line: `, the line in decimal and a closing bracket, and nothing else.
pub proof fn law_record_parts(level: Level, message: Seq<char>, file: Seq<char>, line: nat)
    ensures
        ({
            let whole = record(level, message, file, line);
            let number = text::decimal(line);
            let at_message: int = level.text().len() as int + 3;
            let at_file: int = at_message + message.len() + 8;
            let at_line: int = at_file + file.len() + 8;
            &&& whole.len() == at_line + number.len() + 1
            &&& whole.subrange(0, at_message - 3) == level.text()
            &&& whole.subrange(at_message - 3, at_message) == " - "@
            &&& whole.subrange(at_message, at_file - 8) == message
            &&& whole.subrange(at_file - 8, at_file) == " (File: "@
            &&& whole.subrange(at_file, at_line - 8) == file
            &&& whole.subrange(at_line - 8, at_line) == ", Line: "@
            &&& whole.subrange(at_line, at_line + number.len()) == number
            &&& whole.last() == ')'
        }),
{
    reveal_strlit(" - ");
    reveal_strlit(" (File: ");
    reveal_strlit(", Line: ");
    reveal_strlit(")");
    let whole = record(level, message, file, line);
    let number = text::decimal(line);
    let at_message: int = level.text().len() as int + 3;
    let at_file: int = at_message + message.len() + 8;
    let at_line: int = at_file + file.len() + 8;
    assert(whole.subrange(0, at_message - 3) =~= level.text());
    assert(whole.subrange(at_message - 3, at_message) =~= " - "@);
    assert(whole.subrange(at_message, at_file - 8) =~= message);
    assert(whole.subrange(at_file - 8, at_file) =~= " (File: "@);
    assert(whole.subrange(at_file, at_line - 8) =~= file);
    assert(whole.subrange(at_line - 8, at_line) =~= ", Line: "@);
    assert(whole.subrange(at_line, at_line + number.len()) =~= number);
}

/// Records of the same level and place differ wherever the messages do.
pub proof fn law_messages_told_apart(
    level: Level,
    left: Seq<char>,
    right: Seq<char>,
    file: Seq<char>,
    line: nat,
)
    ensures
        record(level, left, file, line) == record(level, right, file, line) <==> left == right,
{
    law_record_parts(level, left, file, line);
    law_record_parts(level, right, file, line);
}

/// Records of the same message from one file differ wherever the levels or the lines do.
pub proof fn law_levels_and_lines_told_apart(
    left: Level,
    left_line: nat,
    right: Level,
    right_line: nat,
    message: Seq<char>,
    file: Seq<char>,
)
    ensures
        record(left, message, file, left_line) == record(right, message, file, right_line) <==> left
            == right && left_line == right_line,
{
    law_record_parts(left, message, file, left_line);
    law_record_parts(right, message, file, right_line);
    text::lemma_decimal(left_line);
    text::lemma_decimal(right_line);
    level::lemma_first_letters(left);
    level::lemma_first_letters(right);
    let (left_whole, right_whole) = (
        record(left, message, file, left_line),
        record(right, message, file, right_line),
    );
    assert(left_whole[0] == left.text()[0]);
    assert(right_whole[0] == right.text()[0]);
}

} // verus!
