use vstd::prelude::*;

use crate::auth::{AuthError, AuthInfo};
use crate::table::holds;
use crate::tournament::{
    seated_anywhere, total_occupied, Tournament, TournamentStage as Stage,
};
use crate::traits::{QueryTournaments, QueryTournamentsError};

verus! {

#[derive(Debug, Clone, Copy, PartialEq, Eq)]
pub enum FindTournamentsError {
    AuthError(AuthError),
    QueryTournamentsError(QueryTournamentsError),
}

impl From<AuthError> for FindTournamentsError {
    fn from(error: AuthError) -> (r: FindTournamentsError) {
        FindTournamentsError::AuthError(error)
    }
}

impl vstd::std_specs::convert::FromSpecImpl<AuthError> for FindTournamentsError {
    open spec fn obeys_from_spec() -> bool {
        true
    }

    open spec fn from_spec(error: AuthError) -> FindTournamentsError {
        FindTournamentsError::AuthError(error)
    }
}

impl From<QueryTournamentsError> for FindTournamentsError {
    fn from(error: QueryTournamentsError) -> (r: FindTournamentsError) {
        FindTournamentsError::QueryTournamentsError(error)
    }
}

impl vstd::std_specs::convert::FromSpecImpl<QueryTournamentsError> for FindTournamentsError {
    open spec fn obeys_from_spec() -> bool {
        true
    }

    open spec fn from_spec(error: QueryTournamentsError) -> FindTournamentsError {
        FindTournamentsError::QueryTournamentsError(error)
    }
}

#[derive(Debug, Clone, Copy, PartialEq, Eq)]
pub struct FindTournamentsRequest {}

/// A tournament's stage as one caller sees it: while it waits or runs, the
/// number of the caller's table, if the caller sits at one.
#[derive(Debug, Clone, Copy, PartialEq, Eq)]
pub enum TournamentStage {
    WaitingForPlayers(Option<usize>),
    Running(Option<usize>),
    Finished,
}

#[derive(Debug, Clone, Copy, PartialEq, Eq)]
pub struct TournamentInfo {
    pub id: u128,
    pub table_count: usize,
    pub table_seat_count: u8,
    pub player_count: usize,
    pub stage: TournamentStage,
}

#[derive(Debug, Clone, PartialEq, Eq)]
pub struct FindTournamentsResponse {
    pub infos: Vec<TournamentInfo>,
}

pub trait FindTournaments {
    fn find_tournaments(&self, request: FindTournamentsRequest, auth_info: &AuthInfo) -> Result<
        FindTournamentsResponse,
        FindTournamentsError,
    >;
}

/// The table where `account_id` sits, as `players_table_number` finds it.
pub open spec fn table_of(tournament: Tournament, account_id: u128) -> Option<usize> {
    if seated_anywhere(tournament.occupancy(), account_id) {
        Some(
            (choose|t: int|
                0 <= t < tournament.occupancy().len() && holds(#[trigger] tournament.occupancy()[t], account_id)) as usize,
        )
    } else {
        None
    }
}

/// The stage of `tournament` as `account_id` sees it.
pub open spec fn stage_for(tournament: Tournament, account_id: u128) -> TournamentStage {
    if tournament.current_stage() == Stage::WaitingForPlayers {
        TournamentStage::WaitingForPlayers(table_of(tournament, account_id))
    } else if tournament.current_stage() == Stage::Finished {
        TournamentStage::Finished
    } else {
        TournamentStage::Running(table_of(tournament, account_id))
    }
}

/// The summary of `tournament` for `account_id`.
pub open spec fn info_for(tournament: Tournament, account_id: u128) -> TournamentInfo {
    TournamentInfo {
        id: tournament.identity(),
        table_count: tournament.occupancy().len() as usize,
        table_seat_count: tournament.created_spec()@.1,
        player_count: total_occupied(tournament.occupancy()) as usize,
        stage: stage_for(tournament, account_id),
    }
}

/// The stage of `tournament` as `account_id` sees it.
pub fn get_tournament_stage(tournament: &Tournament, account_id: u128) -> (r: TournamentStage)
    requires
        tournament.wf(),
    ensures
        r == stage_for(*tournament, account_id),
{
    let table_number = tournament.players_table_number(account_id);
    proof {
        Tournament::lemma_one_table_per_player(*tournament, account_id);
    }
    if tournament.is_waiting_for_players() {
        TournamentStage::WaitingForPlayers(table_number)
    } else if tournament.is_finished() {
        TournamentStage::Finished
    } else {
        TournamentStage::Running(table_number)
    }
}

/// The summary of `tournament` for `account_id`.
pub fn tournament_info(tournament: &Tournament, account_id: u128) -> (r: TournamentInfo)
    requires
        tournament.wf(),
    ensures
        r == info_for(*tournament, account_id),
{
    TournamentInfo {
        id: tournament.id(),
        table_count: tournament.table_count(),
        table_seat_count: tournament.table_seat_count(),
        player_count: tournament.player_count(),
        stage: get_tournament_stage(tournament, account_id),
    }
}

/// Summarises every stored tournament for an authenticated caller.
pub fn find_tournaments<Repository: QueryTournaments>(
    request: FindTournamentsRequest,
    auth_info: &AuthInfo,
    repository: &Repository,
) -> (r: Result<FindTournamentsResponse, FindTournamentsError>)
    ensures
        *auth_info == AuthInfo::Unauthenticated ==> r == Err::<FindTournamentsResponse, FindTournamentsError>(
            FindTournamentsError::AuthError(AuthError::AuthenticationRequired),
        ),
        r is Ok ==> *auth_info != AuthInfo::Unauthenticated,
        r matches Err(FindTournamentsError::AuthError(_)) ==> *auth_info == AuthInfo::Unauthenticated,
{
    let account_id = match auth_info.ensure_authenticated() {
        Ok(id) => id,
        Err(e) => {
            return Err(FindTournamentsError::AuthError(e));
        },
    };
    let tournaments = match repository.query_tournaments() {
        Ok(v) => v,
        Err(e) => {
            return Err(FindTournamentsError::QueryTournamentsError(e));
        },
    };
    Ok(FindTournamentsResponse { infos: summarise(&tournaments, account_id) })
}

/// The summary of each tournament, in order.
pub fn summarise(tournaments: &Vec<Tournament>, account_id: u128) -> (r: Vec<TournamentInfo>)
    requires
        forall|i: int| 0 <= i < tournaments@.len() ==> (#[trigger] tournaments@[i]).wf(),
    ensures
        r@ == tournaments@.map_values(|t: Tournament| info_for(t, account_id)),
{
    let mut infos: Vec<TournamentInfo> = Vec::new();
    let mut i: usize = 0;
    while i < tournaments.len()
        invariant
            i <= tournaments@.len(),
            forall|k: int| 0 <= k < tournaments@.len() ==> (#[trigger] tournaments@[k]).wf(),
            infos@ == tournaments@.take(i as int).map_values(|t: Tournament| info_for(t, account_id)),
        decreases tournaments@.len() - i,
    {
        infos.push(tournament_info(&tournaments[i], account_id));
        i = i + 1;
        assert(infos@ =~= tournaments@.take(i as int).map_values(|t: Tournament| info_for(t, account_id)));
    }
    assert(tournaments@.take(i as int) =~= tournaments@);
    infos
}

} // verus!
