use justlogs_aggregator::config::{Config, JustlogsInstance};
use justlogs_aggregator::dispatch::Dispatch;
use justlogs_aggregator::fanout::FanOut;
use justlogs_aggregator::ivr::{get_ids_from_login, ivr_lookup, IvrRequestResponse};
use justlogs_aggregator::listmap::ListMap;
use justlogs_aggregator::logs::{
    get_all_channels, get_name_history, Channel, ChannelsResponse, GenericRequestError,
    NamehistoryResponse, Timestamp,
};
use justlogs_aggregator::{
    namehistory, namehistory_merge, namehistory_resolved, ChannelDirectory, InstancesStats,
    NamehistoryResponseError, NamehistoryStep,
};

fn config() -> Config {
    let mut instances = ListMap::new();
    for host in ["a.example", "b.example"] {
        instances.insert(
            host.to_string(),
            JustlogsInstance { maintainer: "someone".to_string(), alternate: None },
        );
    }
    Config {
        port: 8080,
        justlogs_instances: instances,
        recentmessages_instances: ListMap::new(),
        umami_stats: None,
        alternative_ivr_url: None,
    }
}

#[test]
fn boot_with_one_server_down() {
    let cfg = config();
    let mut fan_out: FanOut<ChannelsResponse> = FanOut::new(get_all_channels(&cfg.justlogs_instances));
    let mut asked: Vec<String> = Vec::new();
    loop {
        match fan_out.next() {
            Dispatch::Start(index) => asked.push(fan_out.request(index).url.clone()),
            Dispatch::Wait => {
                assert!(fan_out.complete(
                    1,
                    Err(GenericRequestError::ReqwestError("operation timed out".to_string()))
                ));
                assert!(fan_out.complete(
                    0,
                    Ok(ChannelsResponse {
                        channels: vec![Channel { name: "x".to_string(), user_id: "1".to_string() }]
                    })
                ));
            }
            Dispatch::Done => break,
        }
    }
    assert_eq!(asked, vec!["https://a.example/channels", "https://b.example/channels"]);
    let directory = ChannelDirectory::build(fan_out.into_outcomes());
    assert_eq!(directory.stats(), InstancesStats { count: 2, down: 1 });
    assert_eq!(directory.channel_map().len(), 1);
    assert_eq!(
        directory.channel_map().get("a.example"),
        Some(&vec![Channel { name: "x".to_string(), user_id: "1".to_string() }])
    );
    assert_eq!(directory.channel_map().get("b.example"), None);
    assert_eq!(
        directory.unique_channels().items(),
        &vec![Channel { name: "x".to_string(), user_id: "1".to_string() }]
    );
}

#[test]
fn name_history_of_a_login() {
    let cfg = config();
    let login = match namehistory("login:foo") {
        Ok(NamehistoryStep::Resolve(login)) => login,
        other => panic!("unexpected step: {:?}", other),
    };
    let lookup = ivr_lookup(&cfg, &login);
    assert_eq!(lookup.url, "https://api.ivr.fi/v2/twitch/user");
    assert_eq!(lookup.login, "foo");
    let found = get_ids_from_login(Ok(Some(vec![
        IvrRequestResponse { id: "42".to_string() },
        IvrRequestResponse { id: "99".to_string() },
    ])));
    let user_id = namehistory_resolved(found).unwrap();
    assert_eq!(user_id, "42");
    let record = NamehistoryResponse {
        user_login: "foo".to_string(),
        last_timestamp: Timestamp { seconds: 1_700_000_000, nanos: 0 },
        first_timestamp: Timestamp { seconds: 1_600_000_000, nanos: 500 },
    };
    let mut fan_out: FanOut<Vec<NamehistoryResponse>> =
        FanOut::new(get_name_history(&cfg.justlogs_instances, &user_id));
    assert_eq!(fan_out.next(), Dispatch::Start(0));
    assert_eq!(fan_out.request(0).url, "https://a.example/namehistory/42");
    assert_eq!(fan_out.next(), Dispatch::Start(1));
    assert_eq!(fan_out.request(1).url, "https://b.example/namehistory/42");
    assert!(fan_out.complete(1, Ok(vec![record.clone()])));
    assert!(fan_out.complete(0, Ok(vec![record.clone()])));
    assert_eq!(fan_out.next(), Dispatch::Done);
    let merged = namehistory_merge(&fan_out.into_outcomes());
    assert_eq!(merged.items(), &vec![record]);
}

#[test]
fn name_history_of_an_unknown_login() {
    assert_eq!(
        namehistory("nobody").map(|step| match step {
            NamehistoryStep::Resolve(login) => login,
            NamehistoryStep::FanOut(id) => id,
        }),
        Ok("nobody".to_string())
    );
    let refusal = namehistory_resolved(get_ids_from_login(Ok(Some(vec![])))).unwrap_err();
    assert_eq!(refusal, NamehistoryResponseError::NoSuchUser);
    assert_eq!(refusal.status(), 404);
}

#[test]
fn name_history_with_the_identity_service_down() {
    let reply = Err(GenericRequestError::ReqwestError("connection refused".to_string()));
    let refusal = namehistory_resolved(get_ids_from_login(reply)).unwrap_err();
    assert_eq!(refusal, NamehistoryResponseError::IvrFail);
    assert_eq!(refusal.status(), 503);
}
