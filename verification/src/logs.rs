//! What the log servers are asked and what they answer.

use crate::config::JustlogsInstance;
use crate::dedup::Record;
use crate::listmap::ListMap;
use vstd::prelude::*;
use vstd::std_specs::cmp::PartialEqSpecImpl;
use vstd::string::*;

verus! {

/// A channel as the contracts see it: its name and the identifier of its owner.
pub ghost struct ChannelView {
    pub name: Seq<char>,
    pub user_id: Seq<char>,
}

/// A channel that a log server tracks.
#[derive(Debug)]
pub struct Channel {
    pub name: String,
    pub user_id: String,
}

impl View for Channel {
    type V = ChannelView;

    open spec fn view(&self) -> ChannelView {
        ChannelView { name: self.name@, user_id: self.user_id@ }
    }
}

impl Clone for Channel {
    fn clone(&self) -> (copy: Self)
        ensures
            copy@ == self@,
    {
        Channel { name: self.name.clone(), user_id: self.user_id.clone() }
    }
}

impl PartialEq for Channel {
    fn eq(&self, other: &Self) -> (same: bool) {
        self.name == other.name && self.user_id == other.user_id
    }
}

impl PartialEqSpecImpl for Channel {
    open spec fn obeys_eq_spec() -> bool {
        true
    }

    open spec fn eq_spec(&self, other: &Self) -> bool {
        self@ == other@
    }
}

impl Eq for Channel {

}

impl Record for Channel {
    fn same(&self, other: &Self) -> (same: bool) {
        self.name == other.name && self.user_id == other.user_id
    }

    fn duplicate(&self) -> (copy: Self) {
        self.clone()
    }
}

/// The channels that one log server tracks, in the order in which it lists them.
#[derive(Debug, Clone, PartialEq, Eq)]
pub struct ChannelsResponse {
    pub channels: Vec<Channel>,
}

/// An instant, as whole seconds since the start of 1970 in UTC and the
/// nanoseconds that follow them. Two instants are the same when both parts are.
#[derive(Debug, Clone, Copy, PartialEq, Eq, Structural)]
pub struct Timestamp {
    pub seconds: i64,
    pub nanos: u32,
}

/// A stretch of a user's name history as the contracts see it.
pub ghost struct NamehistoryView {
    pub user_login: Seq<char>,
    pub last_timestamp: Timestamp,
    pub first_timestamp: Timestamp,
}

/// A login that a user went by, with the first and the last time it was seen.
#[derive(Debug)]
pub struct NamehistoryResponse {
    pub user_login: String,
    pub last_timestamp: Timestamp,
    pub first_timestamp: Timestamp,
}

impl View for NamehistoryResponse {
    type V = NamehistoryView;

    open spec fn view(&self) -> NamehistoryView {
        NamehistoryView {
            user_login: self.user_login@,
            last_timestamp: self.last_timestamp,
            first_timestamp: self.first_timestamp,
        }
    }
}

impl Clone for NamehistoryResponse {
    fn clone(&self) -> (copy: Self)
        ensures
            copy@ == self@,
    {
        NamehistoryResponse {
            user_login: self.user_login.clone(),
            last_timestamp: self.last_timestamp,
            first_timestamp: self.first_timestamp,
        }
    }
}

impl PartialEq for NamehistoryResponse {
    fn eq(&self, other: &Self) -> (same: bool) {
        self.user_login == other.user_login && self.last_timestamp == other.last_timestamp
            && self.first_timestamp == other.first_timestamp
    }
}

impl PartialEqSpecImpl for NamehistoryResponse {
    open spec fn obeys_eq_spec() -> bool {
        true
    }

    open spec fn eq_spec(&self, other: &Self) -> bool {
        self@ == other@
    }
}

impl Eq for NamehistoryResponse {

}

impl Record for NamehistoryResponse {
    fn same(&self, other: &Self) -> (same: bool) {
        self.user_login == other.user_login && self.last_timestamp == other.last_timestamp
            && self.first_timestamp == other.first_timestamp
    }

    fn duplicate(&self) -> (copy: Self) {
        self.clone()
    }
}

/// Why a request to a remote server gave nothing, as the contracts see it.
pub ghost enum RequestFailure {
    /// The server was not reached in time; the text says what went wrong.
    Transport(Seq<char>),
    /// The server answered, but not in the expected form.
    Decode(Seq<char>),
}

/// Why a request to a remote server gave nothing. Each kind carries the
/// report of what went wrong.
#[derive(Debug, Clone, PartialEq, Eq)]
pub enum GenericRequestError {
    /// The server was not reached, or not in time.
    ReqwestError(String),
    /// The server answered, but not in the expected form.
    DeserError(String),
}

impl View for GenericRequestError {
    type V = RequestFailure;

    open spec fn view(&self) -> RequestFailure {
        match self {
            GenericRequestError::ReqwestError(report) => RequestFailure::Transport(report@),
            GenericRequestError::DeserError(report) => RequestFailure::Decode(report@),
        }
    }
}

impl GenericRequestError {
    /// What the failure reads as in a log.
    pub open spec fn spec_message(&self) -> Seq<char> {
        match self {
            GenericRequestError::ReqwestError(report) => "Error while making a request: "@
                + report@,
            GenericRequestError::DeserError(report) => "Error while deserializing: "@ + report@,
        }
    }

    /// What the failure reads as in a log: its kind, then the report.
    pub fn message(&self) -> (text: String)
        ensures
            text@ == self.spec_message(),
    {
        match self {
            GenericRequestError::ReqwestError(report) => {
                let mut text = String::from_str("Error while making a request: ");
                text.append(report.as_str());
                text
            },
            GenericRequestError::DeserError(report) => {
                let mut text = String::from_str("Error while deserializing: ");
                text.append(report.as_str());
                text
            },
        }
    }
}

/// What came of the request to one log server.
#[derive(Debug, PartialEq, Eq)]
pub struct Outcome<T> {
    /// The log server that was asked.
    pub instance: String,
    /// Its answer, or why there is none.
    pub result: Result<T, GenericRequestError>,
}

/// No two of the outcomes are of the same log server.
pub open spec fn distinct_instances<T>(outcomes: Seq<Outcome<T>>) -> bool {
    forall|i: int, j: int|
        0 <= i < outcomes.len() && 0 <= j < outcomes.len() && i != j ==> outcomes[i].instance@
            != outcomes[j].instance@
}

/// How a caller wants logs to be fetched and laid out.
#[derive(Debug, Clone, Copy, PartialEq, Eq, Structural)]
pub struct Params {
    pub force: bool,
    pub pretty: bool,
}

/// The seconds after which a request that has not been answered counts as failed.
pub const REQUEST_TIMEOUT_SECONDS: u64 = 5;

/// One request of a fan-out: the log server it goes to and the address to fetch.
#[derive(Debug, Clone, PartialEq, Eq)]
pub struct FetchRequest {
    pub instance: String,
    pub url: String,
}

/// No two of the requests go to the same log server.
pub open spec fn distinct_requests(requests: Seq<FetchRequest>) -> bool {
    forall|i: int, j: int|
        0 <= i < requests.len() && 0 <= j < requests.len() && i != j ==> requests[i].instance@
            != requests[j].instance@
}

/// The address of a log server's channel list.
pub open spec fn channels_url(instance: Seq<char>) -> Seq<char> {
    "https://"@ + instance + "/channels"@
}

/// The address of a log server's name history for one user.
pub open spec fn name_history_url(instance: Seq<char>, user_id: Seq<char>) -> Seq<char> {
    "https://"@ + instance + "/namehistory/"@ + user_id
}

/// The requests that ask every log server for its channels: one for each
/// server, in the order of the registry.
pub fn get_all_channels(instances: &ListMap<JustlogsInstance>) -> (requests: Vec<FetchRequest>)
    ensures
        requests.len() == instances.keys().len(),
        forall|i: int|
            0 <= i < requests.len() ==> {
                &&& (#[trigger] requests[i]).instance@ == instances.keys()[i]
                &&& requests[i].url@ == channels_url(instances.keys()[i])
            },
        instances.wf() ==> distinct_requests(requests@),
{
    let mut requests: Vec<FetchRequest> = Vec::new();
    let mut i: usize = 0;
    while i < instances.len()
        invariant
            i <= instances.keys().len(),
            requests.len() == i,
            forall|j: int|
                0 <= j < i ==> {
                    &&& (#[trigger] requests[j]).instance@ == instances.keys()[j]
                    &&& requests[j].url@ == channels_url(instances.keys()[j])
                },
        decreases instances.keys().len() - i,
    {
        let instance = instances.key_at(i);
        let mut url = String::from_str("https://");
        url.append(instance.as_str());
        url.append("/channels");
        requests.push(FetchRequest { instance: instance.clone(), url });
        i += 1;
    }
    requests
}

/// The requests that ask every log server for the name history of `user_id`:
/// one for each server, in the order of the registry.
pub fn get_name_history(instances: &ListMap<JustlogsInstance>, user_id: &str) -> (requests: Vec<
    FetchRequest,
>)
    ensures
        requests.len() == instances.keys().len(),
        forall|i: int|
            0 <= i < requests.len() ==> {
                &&& (#[trigger] requests[i]).instance@ == instances.keys()[i]
                &&& requests[i].url@ == name_history_url(instances.keys()[i], user_id@)
            },
        instances.wf() ==> distinct_requests(requests@),
{
    let mut requests: Vec<FetchRequest> = Vec::new();
    let mut i: usize = 0;
    while i < instances.len()
        invariant
            i <= instances.keys().len(),
            requests.len() == i,
            forall|j: int|
                0 <= j < i ==> {
                    &&& (#[trigger] requests[j]).instance@ == instances.keys()[j]
                    &&& requests[j].url@ == name_history_url(instances.keys()[j], user_id@)
                },
        decreases instances.keys().len() - i,
    {
        let instance = instances.key_at(i);
        let mut url = String::from_str("https://");
        url.append(instance.as_str());
        url.append("/namehistory/");
        url.append(user_id);
        requests.push(FetchRequest { instance: instance.clone(), url });
        i += 1;
    }
    requests
}

} // verus!
