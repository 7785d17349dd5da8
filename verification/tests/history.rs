use justlogs_aggregator::history::{
    namehistory, namehistory_merge, namehistory_resolved, NamehistoryResponseError, NamehistoryStep,
};
use justlogs_aggregator::ivr::{IvrRequestResponse, IvrResponseError};
use justlogs_aggregator::logs::{GenericRequestError, NamehistoryResponse, Outcome, Timestamp};

fn at(seconds: i64) -> Timestamp {
    Timestamp { seconds, nanos: 0 }
}

fn record(login: &str, first: i64, last: i64) -> NamehistoryResponse {
    NamehistoryResponse {
        user_login: login.to_string(),
        last_timestamp: at(last),
        first_timestamp: at(first),
    }
}

fn answered(instance: &str, records: Vec<NamehistoryResponse>) -> Outcome<Vec<NamehistoryResponse>> {
    Outcome { instance: instance.to_string(), result: Ok(records) }
}

fn failed(instance: &str) -> Outcome<Vec<NamehistoryResponse>> {
    Outcome {
        instance: instance.to_string(),
        result: Err(GenericRequestError::ReqwestError("connection refused".to_string())),
    }
}

#[test]
fn identifier_goes_straight_to_the_log_servers() {
    assert_eq!(namehistory("id:754201843"), Ok(NamehistoryStep::FanOut("754201843".to_string())));
}

#[test]
fn login_goes_to_the_identity_service() {
    assert_eq!(
        namehistory("login:zonianmidian"),
        Ok(NamehistoryStep::Resolve("zonianmidian".to_string()))
    );
}

#[test]
fn bare_token_is_looked_up_as_a_login() {
    assert_eq!(namehistory("zonianmidian"), Ok(NamehistoryStep::Resolve("zonianmidian".to_string())));
    assert_eq!(namehistory("754201843"), Ok(NamehistoryStep::Resolve("754201843".to_string())));
}

#[test]
fn empty_reference_is_an_invalid_format() {
    let expected = NamehistoryResponseError::InvalidFormat(
        "The value must be an ID or use 'login:' to refer to usernames. Example: 754201843 or login:zonianmidian"
            .to_string(),
    );
    assert_eq!(namehistory("id:"), Err(expected.clone()));
    assert_eq!(namehistory("login:"), Err(expected));
}

#[test]
fn refusals_have_their_status() {
    assert_eq!(NamehistoryResponseError::InvalidFormat("bad".to_string()).status(), 500);
    assert_eq!(NamehistoryResponseError::IvrFail.status(), 503);
    assert_eq!(NamehistoryResponseError::NoSuchUser.status(), 404);
}

#[test]
fn resolved_user_gives_the_identifier() {
    let found = Ok(IvrRequestResponse { id: "42".to_string() });
    assert_eq!(namehistory_resolved(found), Ok("42".to_string()));
}

#[test]
fn unknown_user_is_not_found() {
    assert_eq!(
        namehistory_resolved(Err(IvrResponseError::NoInfo)),
        Err(NamehistoryResponseError::NoSuchUser)
    );
}

#[test]
fn failing_identity_service_is_unavailable() {
    assert_eq!(
        namehistory_resolved(Err(IvrResponseError::ReqwestError("timeout".to_string()))),
        Err(NamehistoryResponseError::IvrFail)
    );
    assert_eq!(
        namehistory_resolved(Err(IvrResponseError::DeserError("eof".to_string()))),
        Err(NamehistoryResponseError::IvrFail)
    );
}

#[test]
fn identical_records_of_two_servers_become_one() {
    let merged = namehistory_merge(&vec![
        answered("a.example", vec![record("foo", 100, 200)]),
        answered("b.example", vec![record("foo", 100, 200)]),
    ]);
    assert_eq!(merged.items(), &vec![record("foo", 100, 200)]);
}

#[test]
fn records_that_differ_in_the_last_time_stay_apart() {
    let merged = namehistory_merge(&vec![
        answered("a.example", vec![record("foo", 100, 200)]),
        answered("b.example", vec![record("foo", 100, 201)]),
    ]);
    assert_eq!(merged.items(), &vec![record("foo", 100, 200), record("foo", 100, 201)]);
}

#[test]
fn records_that_differ_in_nanoseconds_stay_apart() {
    let mut later = record("foo", 100, 200);
    later.last_timestamp.nanos = 1;
    let merged = namehistory_merge(&vec![
        answered("a.example", vec![record("foo", 100, 200)]),
        answered("b.example", vec![later.clone()]),
    ]);
    assert_eq!(merged.items(), &vec![record("foo", 100, 200), later]);
}

#[test]
fn failed_server_stops_nothing() {
    let merged = namehistory_merge(&vec![
        failed("a.example"),
        answered("b.example", vec![record("foo", 1, 2), record("bar", 3, 4)]),
        failed("c.example"),
        answered("d.example", vec![record("bar", 3, 4), record("baz", 5, 6)]),
    ]);
    assert_eq!(merged.items(), &vec![record("foo", 1, 2), record("bar", 3, 4), record("baz", 5, 6)]);
    assert_eq!(merged.len(), 3);
}

#[test]
fn nothing_known_anywhere_is_an_empty_history() {
    assert_eq!(namehistory_merge(&vec![]).len(), 0);
    assert_eq!(namehistory_merge(&vec![failed("a.example")]).len(), 0);
    assert_eq!(namehistory_merge(&vec![answered("a.example", vec![])]).len(), 0);
}

#[test]
fn repeated_record_of_one_server_stands_once() {
    let merged = namehistory_merge(&vec![answered(
        "a.example",
        vec![record("foo", 1, 2), record("foo", 1, 2)],
    )]);
    assert_eq!(merged.items(), &vec![record("foo", 1, 2)]);
}
