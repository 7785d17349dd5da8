//! Finding the identifier that belongs to a login, with the help of the
//! identity service.

use crate::config::Config;
use crate::logs::GenericRequestError;
use vstd::prelude::*;
use vstd::string::*;

verus! {

/// A user as the identity service describes it; its view is the identifier.
#[derive(Debug, PartialEq, Eq)]
pub struct IvrRequestResponse {
    pub id: String,
}

impl View for IvrRequestResponse {
    type V = Seq<char>;

    open spec fn view(&self) -> Seq<char> {
        self.id@
    }
}

impl Clone for IvrRequestResponse {
    fn clone(&self) -> (copy: Self)
        ensures
            copy@ == self@,
    {
        IvrRequestResponse { id: self.id.clone() }
    }
}

/// Why a login led to no identifier, as the contracts see it.
pub ghost enum IvrFailure {
    /// The service knows no such user.
    NoInfo,
    /// The service was not reached in time.
    Transport(Seq<char>),
    /// The service answered, but not in the expected form.
    Decode(Seq<char>),
}

/// Why a login led to no identifier. The three kinds call for different
/// answers to the caller, so they are kept apart.
#[derive(Debug, Clone, PartialEq, Eq)]
pub enum IvrResponseError {
    /// The service knows no such user.
    NoInfo,
    /// The service was not reached, or not in time.
    ReqwestError(String),
    /// The service answered, but not in the expected form.
    DeserError(String),
}

impl View for IvrResponseError {
    type V = IvrFailure;

    open spec fn view(&self) -> IvrFailure {
        match self {
            IvrResponseError::NoInfo => IvrFailure::NoInfo,
            IvrResponseError::ReqwestError(report) => IvrFailure::Transport(report@),
            IvrResponseError::DeserError(report) => IvrFailure::Decode(report@),
        }
    }
}

impl IvrResponseError {
    /// What the failure reads as in a log.
    pub open spec fn spec_message(&self) -> Seq<char> {
        match self {
            IvrResponseError::NoInfo => "No information for that user"@,
            IvrResponseError::ReqwestError(report) => "Error while making a request: "@ + report@,
            IvrResponseError::DeserError(report) => "Deserialization error: "@ + report@,
        }
    }

    /// What the failure reads as in a log: its kind, then the report if it has one.
    pub fn message(&self) -> (text: String)
        ensures
            text@ == self.spec_message(),
    {
        match self {
            IvrResponseError::NoInfo => String::from_str("No information for that user"),
            IvrResponseError::ReqwestError(report) => {
                let mut text = String::from_str("Error while making a request: ");
                text.append(report.as_str());
                text
            },
            IvrResponseError::DeserError(report) => {
                let mut text = String::from_str("Deserialization error: ");
                text.append(report.as_str());
                text
            },
        }
    }
}

/// A question to the identity service: the address to fetch, and the login
/// that goes with it as the query parameter `login`.
#[derive(Debug, Clone, PartialEq, Eq)]
pub struct IvrLookup {
    pub url: String,
    pub login: String,
}

/// The identity service that is asked when the settings name no other.
pub open spec fn default_ivr_url() -> Seq<char> {
    "https://api.ivr.fi/v2"@
}

/// The address at which the identity service answers for a login.
pub open spec fn ivr_user_url(cfg: Config) -> Seq<char> {
    match cfg.alternative_ivr_url {
        Some(base) => base@ + "/twitch/user"@,
        None => default_ivr_url() + "/twitch/user"@,
    }
}

/// The question that finds the users who go by `login`.
pub fn ivr_lookup(cfg: &Config, login: &str) -> (lookup: IvrLookup)
    ensures
        lookup.url@ == ivr_user_url(*cfg),
        lookup.login@ == login@,
{
    let mut url = match &cfg.alternative_ivr_url {
        Some(base) => base.clone(),
        None => String::from_str("https://api.ivr.fi/v2"),
    };
    url.append("/twitch/user");
    IvrLookup { url, login: String::from_str(login) }
}

/// What the service's answer means. The answer is the list of candidates, or
/// `None` where it held no list; the first candidate is the user.
pub open spec fn first_identity(
    reply: Result<Option<Vec<IvrRequestResponse>>, GenericRequestError>,
) -> Result<Seq<char>, IvrFailure> {
    match reply {
        Ok(Some(candidates)) => if candidates@.len() > 0 {
            Ok(candidates@[0]@)
        } else {
            Err(IvrFailure::NoInfo)
        },
        Ok(None) => Err(IvrFailure::NoInfo),
        Err(GenericRequestError::ReqwestError(report)) => Err(IvrFailure::Transport(report@)),
        Err(GenericRequestError::DeserError(report)) => Err(IvrFailure::Decode(report@)),
    }
}

/// The view of a resolution.
pub open spec fn identity_view(found: Result<IvrRequestResponse, IvrResponseError>) -> Result<
    Seq<char>,
    IvrFailure,
> {
    match found {
        Ok(user) => Ok(user@),
        Err(error) => Err(error@),
    }
}

/// Reads the identity service's answer to a lookup: the first candidate is
/// the user, whatever follows it. An empty or missing list means that there
/// is no such user, which is not a failure to decode; a failure to reach the
/// service or to decode its answer is passed on as what it is.
pub fn get_ids_from_login(
    reply: Result<Option<Vec<IvrRequestResponse>>, GenericRequestError>,
) -> (found: Result<IvrRequestResponse, IvrResponseError>)
    ensures
        identity_view(found) == first_identity(reply),
{
    match reply {
        Ok(Some(candidates)) => {
            if candidates.len() > 0 {
                Ok(candidates[0].clone())
            } else {
                Err(IvrResponseError::NoInfo)
            }
        },
        Ok(None) => Err(IvrResponseError::NoInfo),
        Err(GenericRequestError::ReqwestError(report)) => Err(
            IvrResponseError::ReqwestError(report),
        ),
        Err(GenericRequestError::DeserError(report)) => Err(IvrResponseError::DeserError(report)),
    }
}

} // verus!
