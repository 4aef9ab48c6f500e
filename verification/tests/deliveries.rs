use chrono::Utc;
use cloudwatch_logger::cache::{stream_key, Caches};
use cloudwatch_logger::delivery::{begin_delivery, custom_cloudwatch_log, Delivery, Error, Step};
use cloudwatch_logger::level::Level;
use cloudwatch_logger::remote::{fetch_latest_stream_token, find_group, find_stream, Reply, Request, StreamSummary};
use cloudwatch_logger::stream::LogStream;

/// 21 January 2025, midnight in UTC.
const JANUARY_21: i64 = 1_737_417_600_000;

const STREAM: &str = "2025-01-21-Server_Responses";

const MESSAGE: &str = "ERROR - boom (File: src/a.rs, Line: 7)";

fn begin(caches: &Caches, now: i64) -> Step {
    let stream = LogStream::ServerResponses;
    begin_delivery(caches, "app".to_string(), Level::Error, "boom", &stream, "src/a.rs", 7, JANUARY_21, now)
}

fn call(step: Step) -> (Delivery, Request) {
    match step {
        Step::Call { next, request } => (next, request),
        Step::Finished(result) => panic!("finished with {:?}", result),
    }
}

fn finished(step: Step) -> Result<(), Error> {
    match step {
        Step::Call { request, .. } => panic!("asks for {:?}", request),
        Step::Finished(result) => result,
    }
}

fn summary(name: &str, token: Option<&str>) -> StreamSummary {
    StreamSummary { name: Some(name.to_string()), upload_sequence_token: token.map(str::to_string) }
}

fn groups(names: &[&str]) -> Reply {
    Reply::LogGroups(names.iter().map(|name| Some(name.to_string())).collect())
}

fn streams(names: &[&str]) -> Reply {
    Reply::LogStreams(names.iter().map(|name| summary(name, None)).collect())
}

fn accepted(token: &str) -> Reply {
    Reply::Accepted(Some(token.to_string()))
}

fn assert_put(request: &Request, token: Option<&str>, timestamp: i64) {
    match request {
        Request::PutLogEvents { group, stream, sequence_token, events } => {
            assert_eq!(group, "app");
            assert_eq!(stream, STREAM);
            assert_eq!(sequence_token.as_deref(), token);
            assert_eq!(events.len(), 1);
            assert_eq!(events[0].message, MESSAGE);
            assert_eq!(events[0].timestamp, timestamp);
        }
        other => panic!("asks for {:?}", other),
    }
}

fn assert_stream_listing(request: &Request) {
    match request {
        Request::DescribeLogStreams { group, prefix } => {
            assert_eq!(group, "app");
            assert_eq!(prefix, STREAM);
        }
        other => panic!("asks for {:?}", other),
    }
}

/// Caches that know the group and the stream.
fn warm_caches() -> Caches {
    let mut caches = Caches::new();
    caches.add_group("app".to_string());
    caches.add_stream(stream_key("app", STREAM));
    caches
}

#[test]
fn missing_group_variable_is_an_error() {
    let caches = Caches::new();
    let stream = LogStream::ServerResponses;
    let step = custom_cloudwatch_log(&caches, None, Level::Error, "boom", &stream, "src/a.rs", 7);
    match finished(step) {
        Err(Error::EnvVarMissing(name)) => assert_eq!(name, "AWS_LOG_GROUP"),
        other => panic!("finished with {:?}", other),
    }
}

#[test]
fn everything_missing_is_created() {
    let mut caches = Caches::new();
    let (next, request) = call(begin(&caches, 1));
    match request {
        Request::DescribeLogGroups { prefix } => assert_eq!(prefix, "app"),
        other => panic!("asks for {:?}", other),
    }
    let (next, request) = call(next.resume_at(&mut caches, groups(&["application"]), 2));
    match request {
        Request::CreateLogGroup { group } => assert_eq!(group, "app"),
        other => panic!("asks for {:?}", other),
    }
    assert!(!caches.knows_group("app"));
    let (next, request) = call(next.resume_at(&mut caches, Reply::Created, 3));
    assert!(caches.knows_group("app"));
    assert_stream_listing(&request);
    let (next, request) = call(next.resume_at(&mut caches, streams(&[]), 4));
    match request {
        Request::CreateLogStream { group, stream } => {
            assert_eq!(group, "app");
            assert_eq!(stream, STREAM);
        }
        other => panic!("asks for {:?}", other),
    }
    let (next, request) = call(next.resume_at(&mut caches, Reply::Created, 5));
    assert!(caches.knows_stream(&stream_key("app", STREAM)));
    assert_put(&request, None, 5);
    assert!(finished(next.resume_at(&mut caches, accepted("t1"), 6)).is_ok());
    assert_eq!(caches.sequence_token(&stream_key("app", STREAM)).as_deref(), Some("t1"));
}

#[test]
fn what_a_listing_names_is_not_created() {
    let mut caches = Caches::new();
    let (next, _) = call(begin(&caches, 1));
    let (next, request) = call(next.resume_at(&mut caches, groups(&["app-2", "app"]), 2));
    assert_stream_listing(&request);
    let listing = streams(&["2025-01-21-Server_Responses-2", STREAM]);
    let (_, request) = call(next.resume_at(&mut caches, listing, 3));
    assert_put(&request, None, 3);
}

#[test]
fn entries_without_a_name_do_not_count() {
    assert!(!find_group(&vec![None], &"app".to_string()));
    assert!(find_group(&vec![None, Some("app".to_string())], &"app".to_string()));
    let nameless = StreamSummary { name: None, upload_sequence_token: Some("t".to_string()) };
    assert!(!find_stream(&vec![nameless], &"s".to_string()));
}

#[test]
fn known_stream_is_sent_at_once_with_its_token() {
    let mut caches = warm_caches();
    caches.update_sequence_token(stream_key("app", STREAM), Some("t7".to_string()));
    let (_, request) = call(begin(&caches, 9));
    assert_put(&request, Some("t7"), 9);
}

#[test]
fn known_group_is_not_listed_again() {
    let mut caches = Caches::new();
    caches.add_group("app".to_string());
    let (_, request) = call(begin(&caches, 9));
    assert_stream_listing(&request);
}

#[test]
fn token_of_an_accepted_event_goes_out_with_the_next() {
    let mut caches = warm_caches();
    let (next, request) = call(begin(&caches, 1));
    assert_put(&request, None, 1);
    assert!(finished(next.resume_at(&mut caches, accepted("t1"), 2)).is_ok());
    let (next, request) = call(begin(&caches, 3));
    assert_put(&request, Some("t1"), 3);
    assert!(finished(next.resume_at(&mut caches, Reply::Accepted(None), 4)).is_ok());
    let (_, request) = call(begin(&caches, 5));
    assert_put(&request, Some("t1"), 5);
}

#[test]
fn refused_token_is_fetched_and_the_event_sent_again() {
    let mut caches = warm_caches();
    caches.update_sequence_token(stream_key("app", STREAM), Some("stale".to_string()));
    let (next, request) = call(begin(&caches, 1));
    assert_put(&request, Some("stale"), 1);
    let (next, request) = call(next.resume_at(&mut caches, Reply::InvalidSequenceToken, 2));
    assert_stream_listing(&request);
    let listing = Reply::LogStreams(vec![summary("other", Some("no")), summary(STREAM, Some("fresh"))]);
    let (next, request) = call(next.resume_at(&mut caches, listing, 3));
    assert_put(&request, Some("fresh"), 1);
    assert!(finished(next.resume_at(&mut caches, accepted("t2"), 4)).is_ok());
    assert_eq!(caches.sequence_token(&stream_key("app", STREAM)).as_deref(), Some("t2"));
}

#[test]
fn event_is_sent_without_a_token_where_none_can_be_fetched() {
    let mut caches = warm_caches();
    let (next, _) = call(begin(&caches, 1));
    let (next, _) = call(next.resume_at(&mut caches, Reply::InvalidSequenceToken, 2));
    let (_, request) = call(next.resume_at(&mut caches, Reply::Failed, 3));
    assert_put(&request, None, 1);
}

#[test]
fn event_is_retried_only_once() {
    let mut caches = warm_caches();
    let (next, _) = call(begin(&caches, 1));
    let (next, _) = call(next.resume_at(&mut caches, Reply::InvalidSequenceToken, 2));
    let (next, _) = call(next.resume_at(&mut caches, streams(&[STREAM]), 3));
    let result = finished(next.resume_at(&mut caches, Reply::InvalidSequenceToken, 4));
    assert!(matches!(result, Err(Error::AwsConfig)));
}

#[test]
fn other_failures_are_not_retried() {
    let mut caches = warm_caches();
    let (next, _) = call(begin(&caches, 1));
    let result = finished(next.resume_at(&mut caches, Reply::Failed, 2));
    assert!(matches!(result, Err(Error::AwsConfig)));
}

#[test]
fn failures_while_looking_up_end_the_delivery() {
    let mut caches = Caches::new();
    let (next, _) = call(begin(&caches, 1));
    let result = finished(next.resume_at(&mut caches, Reply::Failed, 2));
    assert!(matches!(result, Err(Error::AwsConfig)));

    let (next, _) = call(begin(&caches, 1));
    let (next, _) = call(next.resume_at(&mut caches, groups(&[]), 2));
    let result = finished(next.resume_at(&mut caches, Reply::Failed, 3));
    assert!(matches!(result, Err(Error::AwsConfig)));
    assert!(!caches.knows_group("app"));

    let (next, _) = call(begin(&caches, 1));
    let (next, _) = call(next.resume_at(&mut caches, groups(&["app"]), 2));
    let (next, _) = call(next.resume_at(&mut caches, streams(&[]), 3));
    let result = finished(next.resume_at(&mut caches, Reply::Failed, 4));
    assert!(matches!(result, Err(Error::AwsConfig)));
    assert!(caches.knows_group("app"));
    assert!(!caches.knows_stream(&stream_key("app", STREAM)));
}

#[test]
fn a_delivery_makes_seven_calls_at_most() {
    let mut caches = Caches::new();
    let mut step = begin(&caches, 0);
    let mut replies = vec![
        groups(&[]),
        Reply::Created,
        streams(&[]),
        Reply::Created,
        Reply::InvalidSequenceToken,
        Reply::Failed,
        Reply::InvalidSequenceToken,
    ];
    replies.reverse();
    let mut calls = 0;
    let mut attempts = 0;
    while let Step::Call { next, request } = step {
        calls += 1;
        if matches!(request, Request::PutLogEvents { .. }) {
            attempts += 1;
        }
        step = next.resume_at(&mut caches, replies.pop().unwrap(), calls);
    }
    assert_eq!(calls, 7);
    assert_eq!(attempts, 2);
}

#[test]
fn first_entry_of_the_stream_gives_the_token() {
    let listing = vec![
        summary("s-2", Some("a")),
        summary("s", Some("b")),
        summary("s", Some("c")),
    ];
    assert_eq!(fetch_latest_stream_token(&listing, &"s".to_string()).as_deref(), Some("b"));
    assert_eq!(fetch_latest_stream_token(&listing, &"t".to_string()), None);
    let listing = vec![summary("s", None), summary("s", Some("c"))];
    assert_eq!(fetch_latest_stream_token(&listing, &"s".to_string()), None);
}

#[test]
fn keys_join_group_and_stream() {
    assert_eq!(stream_key("app", "2025"), "app::2025");
    assert_eq!(stream_key("a:", "b"), stream_key("a", ":b"));
    assert_ne!(stream_key("a", "b"), stream_key("ab", ""));
}

#[test]
fn entries_of_other_streams_are_left_alone() {
    let mut caches = warm_caches();
    caches.update_sequence_token(stream_key("app", "other"), Some("theirs".to_string()));
    let (next, _) = call(begin(&caches, 1));
    assert!(finished(next.resume_at(&mut caches, accepted("ours"), 2)).is_ok());
    assert_eq!(caches.sequence_token(&stream_key("app", "other")).as_deref(), Some("theirs"));
}

#[test]
fn delivery_is_stamped_by_the_clock() {
    let mut caches = Caches::new();
    let stream = LogStream::Custom("jobs".to_string());
    let group = Some("app".to_string());
    let before = Utc::now().timestamp_millis();
    let step = custom_cloudwatch_log(&caches, group, Level::Info, "m", &stream, "f", 1);
    let (next, _) = call(step);
    let (next, request) = call(next.resume(&mut caches, groups(&["app"])));
    let name = match request {
        Request::DescribeLogStreams { prefix, .. } => prefix,
        other => panic!("asks for {:?}", other),
    };
    let (_, request) = call(next.resume(&mut caches, streams(&[&name])));
    let after = Utc::now().timestamp_millis();
    assert!(name == stream.with_date_at(before) || name == stream.with_date_at(after));
    match request {
        Request::PutLogEvents { events, .. } => {
            assert_eq!(events[0].message, "INFO - m (File: f, Line: 1)");
            assert!(before <= events[0].timestamp && events[0].timestamp <= after);
        }
        other => panic!("asks for {:?}", other),
    }
}

#[test]
fn token_outlasts_deliveries_to_other_streams() {
    let mut caches = warm_caches();
    let (next, _) = call(begin(&caches, 1));
    assert!(finished(next.resume_at(&mut caches, accepted("ours"), 2)).is_ok());

    let other = LogStream::ClientResponses;
    let group = "app".to_string();
    let step = begin_delivery(&caches, group, Level::Warn, "late", &other, "f", 1, JANUARY_21, 3);
    let (next, _) = call(step);
    let (next, _) = call(next.resume_at(&mut caches, streams(&["2025-01-21-Client_Responses"]), 4));
    assert!(finished(next.resume_at(&mut caches, accepted("theirs"), 5)).is_ok());

    let (_, request) = call(begin(&caches, 6));
    assert_put(&request, Some("ours"), 6);
}

#[test]
fn event_keeps_the_time_at_which_it_was_first_sent() {
    let mut caches = Caches::new();
    caches.add_group("app".to_string());
    let (next, _) = call(begin(&caches, 10));
    let (next, request) = call(next.resume_at(&mut caches, streams(&[STREAM]), 20));
    assert_put(&request, None, 20);
    let (next, _) = call(next.resume_at(&mut caches, Reply::InvalidSequenceToken, 30));
    let (_, request) = call(next.resume_at(&mut caches, streams(&[STREAM]), 40));
    assert_put(&request, None, 20);
}

#[test]
fn known_stream_of_today_is_stamped_by_the_clock() {
    let stream = LogStream::Custom("jobs".to_string());
    let before = Utc::now().timestamp_millis();
    let mut caches = Caches::new();
    caches.add_group("app".to_string());
    caches.add_stream(stream_key("app", &stream.with_date_at(before)));
    caches.add_stream(stream_key("app", &stream.with_date_at(before + 86_400_000)));
    let group = Some("app".to_string());
    let (next, request) = call(custom_cloudwatch_log(&caches, group, Level::Info, "m", &stream, "f", 1));
    let after = Utc::now().timestamp_millis();
    match request {
        Request::PutLogEvents { events, .. } => {
            assert_eq!(events[0].message, "INFO - m (File: f, Line: 1)");
            assert!(before <= events[0].timestamp && events[0].timestamp <= after);
        }
        other => panic!("asks for {:?}", other),
    }
    assert!(finished(next.resume(&mut caches, accepted("t"))).is_ok());
}
