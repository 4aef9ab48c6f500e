//! The line that reports a panic.

use vstd::prelude::*;
use vstd::string::*;

use crate::text;

verus! {

/// The report of a panic. `payload` is what the panic carries, where that is a text.
pub open spec fn report(file: Seq<char>, line: nat, payload: Option<Seq<char>>) -> Seq<char> {
    match payload {
        Some(message) => "PANIC => Panic in file '"@ + file + "' at line "@ + text::decimal(line)
            + ": "@ + message,
        None => "PANIC => Panic occurred in file '"@ + file + "' at line "@ + text::decimal(line)
            + ". The panic message is not a string."@,
    }
}

/// Writes the report of a panic at a place in the source.
pub fn panic_report(file: &str, line: u32, payload: Option<String>) -> (whole: String)
    ensures
        whole@ == report(file@, line as nat, payload.deep_view()),
{
    let number = text::decimal_text(line);
    match payload {
        Some(message) => {
            let mut whole = "PANIC => Panic in file '".to_owned();
            whole.append(file);
            whole.append("' at line ");
            whole.append(number.as_str());
            whole.append(": ");
            whole.append(message.as_str());
            whole
        },
        None => {
            let mut whole = "PANIC => Panic occurred in file '".to_owned();
            whole.append(file);
            whole.append("' at line ");
            whole.append(number.as_str());
            whole.append(". The panic message is not a string.");
            whole
        },
    }
}

/// The report of a panic with a text holds the file, the line in decimal and the whole text, each
/// behind its own words, and nothing else.
pub proof fn law_report_parts(file: Seq<char>, line: nat, message: Seq<char>)
    ensures
        ({
            let whole = report(file, line, Some(message));
            let number = text::decimal(line);
            let at_file = "PANIC => Panic in file '"@.len() as int;
            let at_line = at_file + file.len() + "' at line "@.len();
            let at_message = at_line + number.len() + ": "@.len();
            &&& whole.len() == at_message + message.len()
            &&& whole.subrange(0, at_file) == "PANIC => Panic in file '"@
            &&& whole.subrange(at_file, at_file + file.len()) == file
            &&& whole.subrange(at_file + file.len(), at_line) == "' at line "@
            &&& whole.subrange(at_line, at_line + number.len()) == number
            &&& whole.subrange(at_line + number.len(), at_message) == ": "@
            &&& whole.skip(at_message) == message
        }),
{
    let whole = report(file, line, Some(message));
    let number = text::decimal(line);
    let at_file = "PANIC => Panic in file '"@.len() as int;
    let at_line = at_file + file.len() + "' at line "@.len();
    let at_message = at_line + number.len() + ": "@.len();
    assert(whole.subrange(0, at_file) =~= "PANIC => Panic in file '"@);
    assert(whole.subrange(at_file, at_file + file.len()) =~= file);
    assert(whole.subrange(at_file + file.len(), at_line) =~= "' at line "@);
    assert(whole.subrange(at_line, at_line + number.len()) =~= number);
    assert(whole.subrange(at_line + number.len(), at_message) =~= ": "@);
    assert(whole.skip(at_message) =~= message);
}

/// The report of a panic without a text holds the file and the line in decimal, each behind its own
/// words, and says that there is no text.
pub proof fn law_report_without_text_parts(file: Seq<char>, line: nat)
    ensures
        ({
            let whole = report(file, line, None);
            let number = text::decimal(line);
            let at_file = "PANIC => Panic occurred in file '"@.len() as int;
            let at_line = at_file + file.len() + "' at line "@.len();
            let at_end = at_line + number.len();
            &&& whole.subrange(0, at_file) == "PANIC => Panic occurred in file '"@
            &&& whole.subrange(at_file, at_file + file.len()) == file
            &&& whole.subrange(at_file + file.len(), at_line) == "' at line "@
            &&& whole.subrange(at_line, at_end) == number
            &&& whole.skip(at_end) == ". The panic message is not a string."@
        }),
{
    let whole = report(file, line, None);
    let number = text::decimal(line);
    let at_file = "PANIC => Panic occurred in file '"@.len() as int;
    let at_line = at_file + file.len() + "' at line "@.len();
    let at_end = at_line + number.len();
    assert(whole.subrange(0, at_file) =~= "PANIC => Panic occurred in file '"@);
    assert(whole.subrange(at_file, at_file + file.len()) =~= file);
    assert(whole.subrange(at_file + file.len(), at_line) =~= "' at line "@);
    assert(whole.subrange(at_line, at_end) =~= number);
    assert(whole.skip(at_end) =~= ". The panic message is not a string."@);
}

} // verus!
