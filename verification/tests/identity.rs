use justlogs_aggregator::config::Config;
use justlogs_aggregator::ivr::{
    get_ids_from_login, ivr_lookup, IvrRequestResponse, IvrResponseError,
};
use justlogs_aggregator::listmap::ListMap;
use justlogs_aggregator::logs::GenericRequestError;

fn user(id: &str) -> IvrRequestResponse {
    IvrRequestResponse { id: id.to_string() }
}

fn config(alternative: Option<&str>) -> Config {
    Config {
        port: 8080,
        justlogs_instances: ListMap::new(),
        recentmessages_instances: ListMap::new(),
        umami_stats: None,
        alternative_ivr_url: alternative.map(|url| url.to_string()),
    }
}

#[test]
fn first_candidate_is_the_user() {
    let found = get_ids_from_login(Ok(Some(vec![user("42"), user("99")])));
    assert_eq!(found, Ok(user("42")));
}

#[test]
fn single_candidate_is_the_user() {
    assert_eq!(get_ids_from_login(Ok(Some(vec![user("7")]))), Ok(user("7")));
}

#[test]
fn empty_list_means_no_such_user() {
    assert_eq!(get_ids_from_login(Ok(Some(vec![]))), Err(IvrResponseError::NoInfo));
}

#[test]
fn missing_list_means_no_such_user() {
    assert_eq!(get_ids_from_login(Ok(None)), Err(IvrResponseError::NoInfo));
}

#[test]
fn transport_failure_is_passed_on() {
    let reply = Err(GenericRequestError::ReqwestError("timed out".to_string()));
    assert_eq!(
        get_ids_from_login(reply),
        Err(IvrResponseError::ReqwestError("timed out".to_string()))
    );
}

#[test]
fn decode_failure_is_passed_on() {
    let reply = Err(GenericRequestError::DeserError("expected value".to_string()));
    assert_eq!(
        get_ids_from_login(reply),
        Err(IvrResponseError::DeserError("expected value".to_string()))
    );
}

#[test]
fn lookup_goes_to_the_default_service() {
    let lookup = ivr_lookup(&config(None), "zonianmidian");
    assert_eq!(lookup.url, "https://api.ivr.fi/v2/twitch/user");
    assert_eq!(lookup.login, "zonianmidian");
}

#[test]
fn lookup_goes_to_the_configured_service() {
    let lookup = ivr_lookup(&config(Some("http://localhost:9000/v2")), "foo");
    assert_eq!(lookup.url, "http://localhost:9000/v2/twitch/user");
    assert_eq!(lookup.login, "foo");
}

#[test]
fn identity_failures_read_as_their_kind() {
    assert_eq!(IvrResponseError::NoInfo.message(), "No information for that user");
    assert_eq!(
        IvrResponseError::ReqwestError("refused".to_string()).message(),
        "Error while making a request: refused"
    );
    assert_eq!(
        IvrResponseError::DeserError("eof".to_string()).message(),
        "Deserialization error: eof"
    );
}

#[test]
fn request_failures_read_as_their_kind() {
    assert_eq!(
        GenericRequestError::ReqwestError("refused".to_string()).message(),
        "Error while making a request: refused"
    );
    assert_eq!(
        GenericRequestError::DeserError("eof".to_string()).message(),
        "Error while deserializing: eof"
    );
}
