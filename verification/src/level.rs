//! How severe a log message is.

use vstd::prelude::*;
use vstd::string::*;

verus! {

/// The severity of a message, with the levels of the `log` crate.
#[derive(Clone, Copy, Debug, PartialEq, Eq, Structural)]
pub enum Level {
    Error,
    Warn,
    Info,
    Debug,
    Trace,
}

impl Level {
    /// The name of the level, in capitals.
    pub open spec fn text(self) -> Seq<char> {
        match self {
            Level::Error => "ERROR"@,
            Level::Warn => "WARN"@,
            Level::Info => "INFO"@,
            Level::Debug => "DEBUG"@,
            Level::Trace => "TRACE"@,
        }
    }

    /// The label that stands in front of a message on the console.
    pub fn label(self) -> (label: &'static str)
        ensures
            label@ == self.text(),
    {
        match self {
            Level::Error => "ERROR",
            Level::Warn => "WARN",
            Level::Info => "INFO",
            Level::Debug => "DEBUG",
            Level::Trace => "TRACE",
        }
    }
}

/// Every level has its name, and no two levels share one.
pub proof fn law_level_names(level: Level, other: Level)
    ensures
        level is Error <==> level.text() == "ERROR"@,
        level is Warn <==> level.text() == "WARN"@,
        level is Info <==> level.text() == "INFO"@,
        level is Debug <==> level.text() == "DEBUG"@,
        level is Trace <==> level.text() == "TRACE"@,
        level.text() == other.text() <==> level == other,
{
    lemma_first_letters(level);
    lemma_first_letters(other);
    reveal_strlit("ERROR");
    reveal_strlit("WARN");
    reveal_strlit("INFO");
    reveal_strlit("DEBUG");
    reveal_strlit("TRACE");
    assert("ERROR"@[0] == 'E' && "WARN"@[0] == 'W' && "INFO"@[0] == 'I' && "DEBUG"@[0] == 'D'
        && "TRACE"@[0] == 'T');
}

/// The first letter of its name tells a level.
pub proof fn lemma_first_letters(level: Level)
    ensures
        level.text().len() > 0,
        level.text()[0] == match level {
            Level::Error => 'E',
            Level::Warn => 'W',
            Level::Info => 'I',
            Level::Debug => 'D',
            Level::Trace => 'T',
        },
{
    reveal_strlit("ERROR");
    reveal_strlit("WARN");
    reveal_strlit("INFO");
    reveal_strlit("DEBUG");
    reveal_strlit("TRACE");
}

/// The level as the `Display` of `log::Level` writes it.
///
/// Trusted: that text is the name of the level in capitals.
#[verifier::external_body]
pub(crate) fn display_level(level: Level) -> (text: String)
    ensures
        text@ == level.text(),
{
    let shown = match level {
        Level::Error => log::Level::Error,
        Level::Warn => log::Level::Warn,
        Level::Info => log::Level::Info,
        Level::Debug => log::Level::Debug,
        Level::Trace => log::Level::Trace,
    };
    shown.to_string()
}

} // verus!
