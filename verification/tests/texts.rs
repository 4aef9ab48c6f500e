use cloudwatch_logger::console::{log, log_custom, logs_to_cloudwatch, Dispatch};
use cloudwatch_logger::level::Level;
use cloudwatch_logger::panics::panic_report;
use cloudwatch_logger::record::record_text;
use cloudwatch_logger::settings::ClientSettings;
use cloudwatch_logger::stream::LogStream;
use cloudwatch_logger::text::{decimal_text, same_text};

#[test]
fn numbers_are_written_in_decimal() {
    for number in [0, 1, 9, 10, 11, 99, 100, 305, 4_000_000_000, u32::MAX] {
        assert_eq!(decimal_text(number), number.to_string());
    }
}

#[test]
fn texts_are_compared_by_their_characters() {
    assert!(same_text("", ""));
    assert!(same_text("grün", "grün"));
    assert!(!same_text("true", "True"));
    assert!(!same_text("true", "true "));
}

#[test]
fn records_name_level_and_place() {
    assert_eq!(
        record_text(Level::Info, "started", "src/main.rs", 42),
        "INFO - started (File: src/main.rs, Line: 42)"
    );
    assert_eq!(record_text(Level::Error, "", "", 0), "ERROR -  (File: , Line: 0)");
    assert_eq!(record_text(Level::Warn, "a", "b", 1), "WARN - a (File: b, Line: 1)");
    assert_eq!(record_text(Level::Debug, "a", "b", 1), "DEBUG - a (File: b, Line: 1)");
    assert_eq!(record_text(Level::Trace, "a", "b", 1), "TRACE - a (File: b, Line: 1)");
}

#[test]
fn level_names_are_those_of_the_log_crate() {
    let pairs = [
        (Level::Error, log::Level::Error),
        (Level::Warn, log::Level::Warn),
        (Level::Info, log::Level::Info),
        (Level::Debug, log::Level::Debug),
        (Level::Trace, log::Level::Trace),
    ];
    for (own, named) in pairs {
        assert_eq!(own.label(), named.to_string());
    }
}

#[test]
fn only_true_sends_to_cloudwatch() {
    assert!(logs_to_cloudwatch(&Some("true".to_string())));
    assert!(!logs_to_cloudwatch(&Some("TRUE".to_string())));
    assert!(!logs_to_cloudwatch(&Some("1".to_string())));
    assert!(!logs_to_cloudwatch(&Some("".to_string())));
    assert!(!logs_to_cloudwatch(&None));
}

fn console(dispatch: Dispatch) -> String {
    match dispatch {
        Dispatch::Console(line) => line,
        Dispatch::CloudWatch { .. } => panic!("the message should be printed"),
    }
}

#[test]
fn messages_are_printed_with_their_level() {
    assert_eq!(console(log(&None, Level::Error, "boom".to_string())), "ERROR: boom");
    assert_eq!(console(log(&None, Level::Warn, "boom".to_string())), "WARN: boom");
    assert_eq!(console(log(&None, Level::Info, "boom".to_string())), "INFO: boom");
    assert_eq!(console(log(&None, Level::Debug, "boom".to_string())), "DEBUG: boom");
    assert_eq!(
        console(log(&Some("false".to_string()), Level::Trace, "boom".to_string())),
        "TRACE: boom"
    );
}

#[test]
fn custom_messages_are_printed_with_their_stream() {
    let line = console(log_custom(&None, Level::Info, "Jobs".to_string(), "done 3".to_string()));
    assert_eq!(line, "Jobs ::INFO: done 3");
}

#[test]
fn enabled_messages_go_to_the_stream_of_their_level() {
    let on = Some("true".to_string());
    match log(&on, Level::Warn, "late".to_string()) {
        Dispatch::CloudWatch { log_stream, message } => {
            assert!(matches!(log_stream, LogStream::ClientResponses));
            assert_eq!(message, "late");
        }
        Dispatch::Console(_) => panic!("the message should be delivered"),
    }
}

#[test]
fn enabled_custom_messages_go_to_their_own_stream() {
    let on = Some("true".to_string());
    match log_custom(&on, Level::Warn, "Server_Responses".to_string(), "late".to_string()) {
        Dispatch::CloudWatch { log_stream: LogStream::Custom(name), message } => {
            assert_eq!(name, "Server_Responses");
            assert_eq!(message, "late");
        }
        _ => panic!("the message should be delivered to a custom stream"),
    }
}

#[test]
fn panics_are_reported_with_their_place() {
    assert_eq!(
        panic_report("src/a.rs", 17, Some("index out of bounds".to_string())),
        "PANIC => Panic in file 'src/a.rs' at line 17: index out of bounds"
    );
    assert_eq!(
        panic_report("src/a.rs", 17, None),
        "PANIC => Panic occurred in file 'src/a.rs' at line 17. The panic message is not a string."
    );
}

#[test]
fn settings_fall_back_where_nothing_is_set() {
    let settings = ClientSettings::from_values(None, None, None);
    assert_eq!(settings.region, "us-east-1");
    assert_eq!(settings.access_key, "MISSING_KEY");
    assert_eq!(settings.secret_key, "MISSING_SECRET");
}

#[test]
fn settings_take_what_is_set() {
    let settings = ClientSettings::from_values(
        Some("eu-west-3".to_string()),
        Some("id".to_string()),
        Some("".to_string()),
    );
    assert_eq!(settings.region, "eu-west-3");
    assert_eq!(settings.access_key, "id");
    assert_eq!(settings.secret_key, "");
}
