use chrono::{Duration, Utc};
use cloudwatch_logger::clock::{MAX_MILLIS, MIN_MILLIS};
use cloudwatch_logger::level::Level;
use cloudwatch_logger::stream::LogStream;

/// 21 January 2025, midnight in UTC.
const JANUARY_21: i64 = 1_737_417_600_000;

const DAY: i64 = 86_400_000;

#[test]
fn predefined_names_are_recognised() {
    assert!(matches!(LogStream::from_string("Server_Responses".to_string()), LogStream::ServerResponses));
    assert!(matches!(LogStream::from_string("Client_Responses".to_string()), LogStream::ClientResponses));
    assert!(matches!(LogStream::from_string("Redirection_Responses".to_string()), LogStream::RedirectionResponses));
    assert!(matches!(LogStream::from_string("Successful_Responses".to_string()), LogStream::SuccessfulResponses));
    assert!(matches!(LogStream::from_string("Informational_Responses".to_string()), LogStream::InformationalResponses));
    assert!(matches!(LogStream::from_string("Unknown_Or_Unassigned".to_string()), LogStream::UnknownOrUnassigned));
}

#[test]
fn other_names_become_custom_streams() {
    for name in ["", "server_responses", "Server_Responses ", "Custom Stream Name", "Überwachung"] {
        match LogStream::from_string(name.to_string()) {
            LogStream::Custom(own) => assert_eq!(own, name),
            _ => panic!("{} is not predefined", name),
        }
    }
}

#[test]
fn names_are_read_back() {
    for name in [
        "Server_Responses",
        "Client_Responses",
        "Redirection_Responses",
        "Successful_Responses",
        "Informational_Responses",
        "Unknown_Or_Unassigned",
        "payments",
    ] {
        assert_eq!(LogStream::from_string(name.to_string()).as_str(), name);
    }
}

#[test]
fn custom_stream_with_a_predefined_name_is_read_back_as_predefined() {
    let custom = LogStream::Custom("Client_Responses".to_string());
    assert_eq!(custom.as_str(), "Client_Responses");
    assert!(matches!(LogStream::from_string(custom.as_str().to_string()), LogStream::ClientResponses));
}

#[test]
fn levels_are_sorted_into_streams() {
    assert!(matches!(LogStream::from_level(&Level::Error), LogStream::ServerResponses));
    assert!(matches!(LogStream::from_level(&Level::Warn), LogStream::ClientResponses));
    assert!(matches!(LogStream::from_level(&Level::Info), LogStream::InformationalResponses));
    assert!(matches!(LogStream::from_level(&Level::Debug), LogStream::ServerResponses));
    assert!(matches!(LogStream::from_level(&Level::Trace), LogStream::ServerResponses));
}

#[test]
fn dated_name_of_a_category() {
    assert_eq!(LogStream::ServerResponses.with_date_at(JANUARY_21), "2025-01-21-Server_Responses");
    assert_eq!(LogStream::Custom("jobs".to_string()).with_date_at(JANUARY_21 + 1), "2025-01-21-jobs");
}

#[test]
fn streams_are_partitioned_by_day() {
    let stream = LogStream::InformationalResponses;
    assert_eq!(stream.with_date_at(JANUARY_21), stream.with_date_at(JANUARY_21 + DAY - 1));
    assert_eq!(stream.with_date_at(JANUARY_21 - 1), "2025-01-20-Informational_Responses");
    assert_eq!(stream.with_date_at(JANUARY_21 + DAY), "2025-01-22-Informational_Responses");
    assert_ne!(stream.with_date_at(JANUARY_21), LogStream::ServerResponses.with_date_at(JANUARY_21));
}

#[test]
fn dates_follow_the_calendar() {
    let stream = LogStream::Custom("x".to_string());
    let expected = [
        (0, "1970-01-01-x"),
        (-1, "1969-12-31-x"),
        (951_782_400_000, "2000-02-29-x"),
        (951_868_800_000, "2000-03-01-x"),
        (1_709_164_800_000, "2024-02-29-x"),
        (1_735_603_200_000, "2024-12-31-x"),
        (-2_203_977_600_000, "1900-02-28-x"),
        (-2_203_891_200_000, "1900-03-01-x"),
        (4_107_456_000_000, "2100-02-28-x"),
        (4_107_542_400_000, "2100-03-01-x"),
    ];
    for (millis, name) in expected {
        assert_eq!(stream.with_date_at(millis), name);
    }
}

#[test]
fn years_that_four_digits_do_not_hold_carry_a_sign() {
    let stream = LogStream::Custom("x".to_string());
    assert_eq!(stream.with_date_at(253_402_300_799_999), "9999-12-31-x");
    assert_eq!(stream.with_date_at(253_402_300_800_000), "+10000-01-01-x");
    assert_eq!(stream.with_date_at(-62_167_219_200_000), "0000-01-01-x");
    assert_eq!(stream.with_date_at(-62_167_219_200_001), "-0001-12-31-x");
    assert_eq!(stream.with_date_at(MIN_MILLIS), "-262143-01-01-x");
    assert_eq!(stream.with_date_at(MAX_MILLIS), "+262142-12-31-x");
}

#[test]
fn limits_of_the_clock_are_those_of_the_dates() {
    assert_eq!(chrono::DateTime::<Utc>::MIN_UTC.timestamp_millis(), MIN_MILLIS);
    assert_eq!(chrono::DateTime::<Utc>::MAX_UTC.timestamp_millis(), MAX_MILLIS);
    assert!(chrono::DateTime::from_timestamp_millis(MIN_MILLIS).is_some());
    assert!(chrono::DateTime::from_timestamp_millis(MAX_MILLIS).is_some());
    assert!(chrono::DateTime::from_timestamp_millis(MIN_MILLIS - 1).is_none());
    assert!(chrono::DateTime::from_timestamp_millis(MAX_MILLIS + 1).is_none());
}

#[test]
fn name_of_today() {
    let name = LogStream::UnknownOrUnassigned.with_date();
    let now = Utc::now();
    let today = LogStream::UnknownOrUnassigned.with_date_at(now.timestamp_millis());
    let a_moment_ago = (now - Duration::seconds(60)).timestamp_millis();
    assert!(name == today || name == LogStream::UnknownOrUnassigned.with_date_at(a_moment_ago));
    assert!(name.ends_with("-Unknown_Or_Unassigned"));
    assert!(name.as_str() >= "1970-01-01");
}
