use vstd::prelude::*;

use crate::auth::{AuthError, AuthInfo};
use crate::table::{TableEvent, TableState};
use crate::tournament::{Tournament, TournamentError};
use crate::traits::{LoadTournament, LoadTournamentError, SubscribeTableEvents};

use tokio::sync::broadcast::Receiver;

verus! {

#[derive(Debug, Clone, Copy, PartialEq, Eq)]
pub enum ObserveTableError {
    AuthError(AuthError),
    LoadTournamentError(LoadTournamentError),
    TournamentError(TournamentError),
}

impl From<AuthError> for ObserveTableError {
    fn from(error: AuthError) -> (r: ObserveTableError) {
        ObserveTableError::AuthError(error)
    }
}

impl vstd::std_specs::convert::FromSpecImpl<AuthError> for ObserveTableError {
    open spec fn obeys_from_spec() -> bool {
        true
    }

    open spec fn from_spec(error: AuthError) -> ObserveTableError {
        ObserveTableError::AuthError(error)
    }
}

impl From<LoadTournamentError> for ObserveTableError {
    fn from(error: LoadTournamentError) -> (r: ObserveTableError) {
        ObserveTableError::LoadTournamentError(error)
    }
}

impl vstd::std_specs::convert::FromSpecImpl<LoadTournamentError> for ObserveTableError {
    open spec fn obeys_from_spec() -> bool {
        true
    }

    open spec fn from_spec(error: LoadTournamentError) -> ObserveTableError {
        ObserveTableError::LoadTournamentError(error)
    }
}

impl From<TournamentError> for ObserveTableError {
    fn from(error: TournamentError) -> (r: ObserveTableError) {
        ObserveTableError::TournamentError(error)
    }
}

impl vstd::std_specs::convert::FromSpecImpl<TournamentError> for ObserveTableError {
    open spec fn obeys_from_spec() -> bool {
        true
    }

    open spec fn from_spec(error: TournamentError) -> ObserveTableError {
        ObserveTableError::TournamentError(error)
    }
}

#[derive(Debug, Clone, Copy, PartialEq, Eq)]
pub struct ObserveTableRequest {
    pub tournament_id: u128,
    pub table_number: usize,
}

/// The table's current state, and a receiver of its occurrences from now on.
#[derive(Debug)]
pub struct ObserveTableResponse {
    pub table_state: TableState,
    pub receiver: Receiver<TableEvent>,
}

pub trait ObserveTable {
    fn observe_table(&mut self, request: ObserveTableRequest, auth_info: &AuthInfo) -> Result<
        ObserveTableResponse,
        ObserveTableError,
    >;
}

/// Lets an authenticated caller observe one table of a stored tournament: a
/// table number out of range, or a table without a channel, is reported as
/// `NotSuchTable`.
pub fn observe_table<Repository: LoadTournament, Broadcast: SubscribeTableEvents>(
    request: ObserveTableRequest,
    auth_info: &AuthInfo,
    repository: &Repository,
    broadcast: &Broadcast,
) -> (r: Result<ObserveTableResponse, ObserveTableError>)
    ensures
        *auth_info == AuthInfo::Unauthenticated ==> r matches Err(
            ObserveTableError::AuthError(AuthError::AuthenticationRequired),
        ),
        r is Ok ==> *auth_info != AuthInfo::Unauthenticated,
        r matches Err(ObserveTableError::AuthError(_)) ==> *auth_info == AuthInfo::Unauthenticated,
{
    match auth_info.ensure_authenticated() {
        Ok(_) => {},
        Err(e) => {
            return Err(ObserveTableError::AuthError(e));
        },
    }
    let tournament = match repository.load_tournament(request.tournament_id) {
        Ok(t) => t,
        Err(e) => {
            return Err(ObserveTableError::LoadTournamentError(e));
        },
    };
    let subscription = broadcast.subscribe_table_events(request.tournament_id, request.table_number);
    table_observation(&tournament, request.table_number, subscription)
}

/// The answer to observing table `table_number` of `tournament`, given what
/// subscribing to that table gave: a table out of range, or one without a
/// channel, is `NotSuchTable`.
pub fn table_observation(
    tournament: &Tournament,
    table_number: usize,
    subscription: Option<Receiver<TableEvent>>,
) -> (r: Result<ObserveTableResponse, ObserveTableError>)
    ensures
        r is Ok <==> table_number < tournament.occupancy().len() && subscription is Some,
        r is Err ==> r matches Err(ObserveTableError::TournamentError(TournamentError::NotSuchTable)),
{
    let table_state = match tournament.table_state(table_number) {
        Ok(s) => s,
        Err(e) => {
            return Err(ObserveTableError::TournamentError(e));
        },
    };
    match subscription {
        Some(receiver) => Ok(ObserveTableResponse { table_state, receiver }),
        None => Err(ObserveTableError::TournamentError(TournamentError::NotSuchTable)),
    }
}

} // verus!
