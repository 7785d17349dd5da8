use justlogs_aggregator::directory::{ChannelDirectory, InstancesStats};
use justlogs_aggregator::logs::{Channel, ChannelsResponse, GenericRequestError, Outcome};

fn channel(name: &str, user_id: &str) -> Channel {
    Channel { name: name.to_string(), user_id: user_id.to_string() }
}

fn answered(instance: &str, channels: Vec<Channel>) -> Outcome<ChannelsResponse> {
    Outcome { instance: instance.to_string(), result: Ok(ChannelsResponse { channels }) }
}

fn timed_out(instance: &str) -> Outcome<ChannelsResponse> {
    Outcome {
        instance: instance.to_string(),
        result: Err(GenericRequestError::ReqwestError("operation timed out".to_string())),
    }
}

fn undecodable(instance: &str) -> Outcome<ChannelsResponse> {
    Outcome {
        instance: instance.to_string(),
        result: Err(GenericRequestError::DeserError("expected value".to_string())),
    }
}

#[test]
fn one_server_answers_and_one_times_out() {
    let directory = ChannelDirectory::build(vec![
        answered("a.example", vec![channel("x", "1")]),
        timed_out("b.example"),
    ]);
    assert_eq!(directory.stats(), InstancesStats { count: 2, down: 1 });
    let map = directory.channel_map();
    assert_eq!(map.len(), 1);
    assert_eq!(map.get("a.example"), Some(&vec![channel("x", "1")]));
    assert_eq!(map.get("b.example"), None);
    assert_eq!(directory.unique_channels().items(), &vec![channel("x", "1")]);
}

#[test]
fn no_outcomes_give_an_empty_directory() {
    let directory = ChannelDirectory::build(vec![]);
    assert_eq!(directory.stats(), InstancesStats { count: 0, down: 0 });
    assert_eq!(directory.channel_map().len(), 0);
    assert_eq!(directory.unique_channels().len(), 0);
}

#[test]
fn down_counts_both_kinds_of_failure() {
    let directory = ChannelDirectory::build(vec![
        timed_out("a.example"),
        answered("b.example", vec![]),
        undecodable("c.example"),
        timed_out("d.example"),
    ]);
    assert_eq!(directory.stats(), InstancesStats { count: 4, down: 3 });
    assert!(directory.stats().down <= directory.stats().count);
}

#[test]
fn every_server_down_leaves_no_entry() {
    let directory = ChannelDirectory::build(vec![timed_out("a.example"), undecodable("b.example")]);
    assert_eq!(directory.stats(), InstancesStats { count: 2, down: 2 });
    assert_eq!(directory.channel_map().len(), 0);
    assert_eq!(directory.unique_channels().len(), 0);
}

#[test]
fn channel_of_two_servers_stands_once() {
    let directory = ChannelDirectory::build(vec![
        answered("a.example", vec![channel("x", "1"), channel("y", "2")]),
        answered("b.example", vec![channel("z", "3"), channel("x", "1")]),
    ]);
    assert_eq!(directory.stats(), InstancesStats { count: 2, down: 0 });
    assert_eq!(
        directory.unique_channels().items(),
        &vec![channel("x", "1"), channel("y", "2"), channel("z", "3")]
    );
    let map = directory.channel_map();
    assert_eq!(map.get("a.example"), Some(&vec![channel("x", "1"), channel("y", "2")]));
    assert_eq!(map.get("b.example"), Some(&vec![channel("z", "3"), channel("x", "1")]));
}

#[test]
fn channels_that_differ_in_one_field_stay_apart() {
    let directory = ChannelDirectory::build(vec![
        answered("a.example", vec![channel("x", "1")]),
        answered("b.example", vec![channel("x", "2"), channel("y", "1")]),
    ]);
    assert_eq!(
        directory.unique_channels().items(),
        &vec![channel("x", "1"), channel("x", "2"), channel("y", "1")]
    );
}

#[test]
fn repeated_channel_of_one_server_stays_in_its_list() {
    let directory = ChannelDirectory::build(vec![answered(
        "a.example",
        vec![channel("x", "1"), channel("x", "1")],
    )]);
    assert_eq!(directory.unique_channels().len(), 1);
    assert_eq!(
        directory.channel_map().get("a.example"),
        Some(&vec![channel("x", "1"), channel("x", "1")])
    );
}

#[test]
fn server_without_channels_has_an_empty_entry() {
    let directory = ChannelDirectory::build(vec![answered("a.example", vec![])]);
    assert_eq!(directory.stats(), InstancesStats { count: 1, down: 0 });
    assert_eq!(directory.channel_map().get("a.example"), Some(&vec![]));
    assert_eq!(directory.unique_channels().len(), 0);
}

#[test]
fn later_answer_under_one_name_stands() {
    let directory = ChannelDirectory::build(vec![
        answered("a.example", vec![channel("x", "1")]),
        answered("a.example", vec![channel("y", "2")]),
    ]);
    assert_eq!(directory.stats(), InstancesStats { count: 2, down: 0 });
    assert_eq!(directory.channel_map().len(), 1);
    assert_eq!(directory.channel_map().get("a.example"), Some(&vec![channel("y", "2")]));
    assert_eq!(directory.unique_channels().items(), &vec![channel("x", "1"), channel("y", "2")]);
}

#[test]
fn entries_keep_the_order_of_arrival() {
    let directory = ChannelDirectory::build(vec![
        answered("c.example", vec![]),
        timed_out("a.example"),
        answered("b.example", vec![]),
    ]);
    let map = directory.channel_map();
    assert_eq!(map.len(), 2);
    assert_eq!(map.key_at(0), "c.example");
    assert_eq!(map.key_at(1), "b.example");
}
