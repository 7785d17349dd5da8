//! Answering a request for a user's name history: reading the token, finding
//! the user, and merging what the log servers know.

use crate::dedup::{
    first_occurrences, lemma_absorb_concat, lemma_first_occurrences, lemma_flatten_contains, views,
    DedupSet,
};
use crate::ivr::{IvrFailure, IvrRequestResponse, IvrResponseError};
use crate::logs::{NamehistoryResponse, NamehistoryView, Outcome};
use crate::user::{parse_id_arg, parse_reference, UserReference, UserType};
use vstd::prelude::*;
use vstd::string::*;

verus! {

/// Why a request for a name history is turned down.
#[derive(Debug, Clone, PartialEq, Eq)]
pub enum NamehistoryResponseError {
    /// The token names nobody: a prefix with nothing behind it.
    InvalidFormat(String),
    /// The identity service could not be asked or understood.
    IvrFail,
    /// The identity service knows no user of that login.
    NoSuchUser,
}

impl NamehistoryResponseError {
    /// The status code that tells the caller of this refusal. A token that
    /// names nobody is answered as a fault of the server, not of the request.
    pub open spec fn spec_status(&self) -> u16 {
        match self {
            NamehistoryResponseError::InvalidFormat(_) => 500,
            NamehistoryResponseError::IvrFail => 503,
            NamehistoryResponseError::NoSuchUser => 404,
        }
    }

    /// The status code that tells the caller of this refusal.
    #[verifier::when_used_as_spec(spec_status)]
    pub fn status(&self) -> (code: u16)
        ensures
            code == self.spec_status(),
    {
        match self {
            NamehistoryResponseError::InvalidFormat(_) => 500,
            NamehistoryResponseError::IvrFail => 503,
            NamehistoryResponseError::NoSuchUser => 404,
        }
    }
}

/// What a request needs next, once its token is read.
#[derive(Debug, Clone, PartialEq, Eq)]
pub enum NamehistoryStep {
    /// The token is a login: the identity service has to be asked for its user.
    Resolve(String),
    /// The user's identifier is known: every log server can be asked.
    FanOut(String),
}

/// What is said to a caller whose token names nobody.
pub open spec fn invalid_format_reason() -> Seq<char> {
    "The value must be an ID or use 'login:' to refer to usernames. Example: 754201843 or login:zonianmidian"@
}

/// Starts a request: reads the token, in which `id:` and `login:` are
/// honoured and a bare token is a login. An identifier goes straight to the
/// log servers; a login goes to the identity service first.
pub fn namehistory(user: &str) -> (step: Result<NamehistoryStep, NamehistoryResponseError>)
    ensures
        match parse_reference(user@, true) {
            None => step matches Err(NamehistoryResponseError::InvalidFormat(reason)) && reason@
                == invalid_format_reason(),
            Some(UserReference::ById(id)) => step matches Ok(NamehistoryStep::FanOut(user_id))
                && user_id@ == id,
            Some(UserReference::ByLogin(name)) => step matches Ok(NamehistoryStep::Resolve(login))
                && login@ == name,
        },
{
    match parse_id_arg(user) {
        None => Err(
            NamehistoryResponseError::InvalidFormat(
                String::from_str(
                    "The value must be an ID or use 'login:' to refer to usernames. Example: 754201843 or login:zonianmidian",
                ),
            ),
        ),
        Some(UserType::Id(id)) => Ok(NamehistoryStep::FanOut(String::from_str(id))),
        Some(UserType::Login(login)) => Ok(NamehistoryStep::Resolve(String::from_str(login))),
    }
}

/// Goes on once the identity service has answered: with the user's
/// identifier to the log servers, or no further. An unknown user is told
/// apart from a service that failed.
pub fn namehistory_resolved(found: Result<IvrRequestResponse, IvrResponseError>) -> (user_id:
    Result<String, NamehistoryResponseError>)
    ensures
        match found {
            Ok(user) => user_id matches Ok(id) && id@ == user@,
            Err(error) => user_id matches Err(refusal) && refusal == (match error@ {
                IvrFailure::NoInfo => NamehistoryResponseError::NoSuchUser,
                IvrFailure::Transport(_) => NamehistoryResponseError::IvrFail,
                IvrFailure::Decode(_) => NamehistoryResponseError::IvrFail,
            }),
        },
{
    match found {
        Ok(user) => Ok(user.id),
        Err(IvrResponseError::NoInfo) => Err(NamehistoryResponseError::NoSuchUser),
        Err(IvrResponseError::ReqwestError(_)) => Err(NamehistoryResponseError::IvrFail),
        Err(IvrResponseError::DeserError(_)) => Err(NamehistoryResponseError::IvrFail),
    }
}

/// What one log server contributes: its records, or nothing where it failed.
pub open spec fn contribution(outcome: Outcome<Vec<NamehistoryResponse>>) -> Seq<NamehistoryView> {
    match outcome.result {
        Ok(records) => views(records@),
        Err(_) => Seq::empty(),
    }
}

/// Every record of every log server that answered, in the order in which the
/// answers came in.
pub open spec fn gathered_history(outcomes: Seq<Outcome<Vec<NamehistoryResponse>>>) -> Seq<
    NamehistoryView,
> {
    outcomes.map_values(|outcome: Outcome<Vec<NamehistoryResponse>>| contribution(outcome)).flatten()
}

/// A record is gathered exactly when some log server that answered lists it.
pub proof fn lemma_gathered_history(
    outcomes: Seq<Outcome<Vec<NamehistoryResponse>>>,
    record: NamehistoryView,
)
    ensures
        gathered_history(outcomes).contains(record) <==> exists|i: int, j: int|
            0 <= i < outcomes.len() && 0 <= j < contribution(outcomes[i]).len()
                && #[trigger] contribution(outcomes[i])[j] == record,
{
    let parts = outcomes.map_values(
        |outcome: Outcome<Vec<NamehistoryResponse>>| contribution(outcome),
    );
    lemma_flatten_contains(parts, record);
    if gathered_history(outcomes).contains(record) {
        let (i, j) = choose|i: int, j: int|
            0 <= i < parts.len() && 0 <= j < parts[i].len() && #[trigger] parts[i][j] == record;
        assert(contribution(outcomes[i])[j] == record);
    }
    if exists|i: int, j: int|
        0 <= i < outcomes.len() && 0 <= j < contribution(outcomes[i]).len()
            && #[trigger] contribution(outcomes[i])[j] == record {
        let (i, j) = choose|i: int, j: int|
            0 <= i < outcomes.len() && 0 <= j < contribution(outcomes[i]).len()
                && #[trigger] contribution(outcomes[i])[j] == record;
        assert(parts[i][j] == record);
    }
}

/// Gathering one outcome more adds its contribution at the end.
proof fn lemma_gathered_history_step(outcomes: Seq<Outcome<Vec<NamehistoryResponse>>>, i: int)
    requires
        0 <= i < outcomes.len(),
    ensures
        gathered_history(outcomes.take(i + 1)) == gathered_history(outcomes.take(i)) + contribution(
            outcomes[i],
        ),
{
    let part = |outcome: Outcome<Vec<NamehistoryResponse>>| contribution(outcome);
    let front = outcomes.take(i).map_values(part);
    assert(outcomes.take(i + 1).map_values(part) =~= front.push(contribution(outcomes[i])));
    front.lemma_flatten_push(contribution(outcomes[i]));
}

/// Merges what the log servers answered, given in the order in which the
/// answers came in. A server that failed contributes nothing and stops
/// nothing. Records that agree in every field become one; records that differ
/// in any field stay apart. The first of equal records keeps its place.
pub fn namehistory_merge(outcomes: &Vec<Outcome<Vec<NamehistoryResponse>>>) -> (merged: DedupSet<
    NamehistoryResponse,
>)
    ensures
        merged.wf(),
        merged.order() == first_occurrences(gathered_history(outcomes@)),
        merged@ == gathered_history(outcomes@).to_set(),
{
    let mut merged: DedupSet<NamehistoryResponse> = DedupSet::new();
    let mut i: usize = 0;
    proof {
        assert(gathered_history(outcomes@.take(0)) =~= Seq::<NamehistoryView>::empty());
    }
    while i < outcomes.len()
        invariant
            i <= outcomes.len(),
            merged.wf(),
            merged.order() == first_occurrences(gathered_history(outcomes@.take(i as int))),
        decreases outcomes.len() - i,
    {
        proof {
            lemma_gathered_history_step(outcomes@, i as int);
            lemma_absorb_concat(
                Seq::<NamehistoryView>::empty(),
                gathered_history(outcomes@.take(i as int)),
                contribution(outcomes@[i as int]),
            );
        }
        match &outcomes[i].result {
            Ok(records) => {
                merged.extend(records);
            },
            Err(_) => {},
        }
        i += 1;
    }
    proof {
        assert(outcomes@.take(outcomes.len() as int) =~= outcomes@);
        lemma_first_occurrences(gathered_history(outcomes@));
    }
    merged
}

} // verus!
