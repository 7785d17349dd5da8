//! Reporting the use of the service to a usage counter.

use crate::config::Config;
use vstd::prelude::*;
use vstd::string::*;

verus! {

/// Why no usage event was sent.
#[derive(Debug, Clone, PartialEq, Eq)]
pub enum UmamiError {
    /// The counter was not reached; the text says what went wrong.
    ReqwestError(String),
    /// The settings name no counter.
    UmamiUndefined,
    /// The request that is reported lacks a header that the event needs.
    MissingHeaders,
}

impl UmamiError {
    /// What the failure reads as in a log.
    pub open spec fn spec_message(&self) -> Seq<char> {
        match self {
            UmamiError::ReqwestError(report) => "Error while making a request: "@ + report@,
            UmamiError::UmamiUndefined => "Umami is not defined in the config"@,
            UmamiError::MissingHeaders => "Response is missing required headers"@,
        }
    }

    /// What the failure reads as in a log: its kind, then the report if it has one.
    pub fn message(&self) -> (text: String)
        ensures
            text@ == self.spec_message(),
    {
        match self {
            UmamiError::ReqwestError(report) => {
                let mut text = String::from_str("Error while making a request: ");
                text.append(report.as_str());
                text
            },
            UmamiError::UmamiUndefined => String::from_str("Umami is not defined in the config"),
            UmamiError::MissingHeaders => String::from_str("Response is missing required headers"),
        }
    }
}

/// A usage event, ready to be sent: where to, under which token, and what
/// it says. The header values are kept as the bytes that came in.
#[derive(Debug, Clone, PartialEq, Eq)]
pub struct UmamiEvent {
    /// The address that takes the event.
    pub endpoint: String,
    /// The token that authorises the sender.
    pub token: String,
    /// The host that the reported request was sent to.
    pub hostname: Vec<u8>,
    /// The languages that the reported request accepts.
    pub language: Vec<u8>,
    /// The page that the reported request came from; empty where it named none.
    pub referrer: Vec<u8>,
    /// The address that the reported request asked for.
    pub url: String,
    /// The identity of this service at the counter.
    pub website: String,
    /// The name of the event.
    pub name: String,
}

/// The address of a counter that takes events.
pub open spec fn send_endpoint(base: Seq<char>) -> Seq<char> {
    base + "/api/send"@
}

/// Makes the usage event for one request out of the settings and what the
/// request carried. The settings must name a counter, and the request must
/// carry its host and its accepted languages; the referring page may be
/// missing. The settings are looked at first.
pub fn send_to_umami(
    cfg: &Config,
    host: Option<Vec<u8>>,
    language: Option<Vec<u8>>,
    referer: Option<Vec<u8>>,
    url: String,
    name: &str,
) -> (event: Result<UmamiEvent, UmamiError>)
    ensures
        match cfg.umami_stats {
            None => event matches Err(UmamiError::UmamiUndefined),
            Some(umami) => if host is None || language is None {
                event matches Err(UmamiError::MissingHeaders)
            } else {
                &&& event matches Ok(made)
                &&& made.endpoint@ == send_endpoint(umami.url@)
                &&& made.token@ == umami.token@
                &&& made.hostname@ == host->0@
                &&& made.language@ == language->0@
                &&& made.referrer@ == match referer {
                    Some(page) => page@,
                    None => Seq::<u8>::empty(),
                }
                &&& made.url@ == url@
                &&& made.website@ == umami.id@
                &&& made.name@ == name@
            },
        },
{
    let umami = match &cfg.umami_stats {
        Some(umami) => umami,
        None => {
            return Err(UmamiError::UmamiUndefined);
        },
    };
    let hostname = match host {
        Some(value) => value,
        None => {
            return Err(UmamiError::MissingHeaders);
        },
    };
    let language = match language {
        Some(value) => value,
        None => {
            return Err(UmamiError::MissingHeaders);
        },
    };
    let referrer = match referer {
        Some(value) => value,
        None => Vec::new(),
    };
    let mut endpoint = umami.url.clone();
    endpoint.append("/api/send");
    Ok(
        UmamiEvent {
            endpoint,
            token: umami.token.clone(),
            hostname,
            language,
            referrer,
            url,
            website: umami.id.clone(),
            name: String::from_str(name),
        },
    )
}

} // verus!
