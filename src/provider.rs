use vstd::prelude::*;

use crate::auth::AuthInfo;
use crate::create_tournament::{
    create_tournament, CreateTournament, CreateTournamentError, CreateTournamentRequest, CreateTournamentResponse,
};
use crate::find_tournaments::{
    find_tournaments, FindTournaments, FindTournamentsError, FindTournamentsRequest, FindTournamentsResponse,
};
use crate::join_tournament::{
    join_tournament, JoinTournament, JoinTournamentError, JoinTournamentRequest, JoinTournamentResponse,
};
use crate::observe_table::{observe_table, ObserveTable, ObserveTableError, ObserveTableRequest, ObserveTableResponse};
use crate::traits::{AccessTableEventBroadcast, AccessTournaments};

verus! {

/// Every service of the card room.
pub trait ProvideServices: FindTournaments + CreateTournament + JoinTournament + ObserveTable {

}

impl<T: FindTournaments + CreateTournament + JoinTournament + ObserveTable> ProvideServices for T {

}

/// The services, over one store of tournaments and one broadcast of table
/// occurrences. A tournament's tables can be observed from its creation on.
#[derive(Debug)]
pub struct ServiceProvider<Repository: AccessTournaments, Broadcast: AccessTableEventBroadcast> {
    repository: Repository,
    broadcast: Broadcast,
}

impl<Repository: AccessTournaments, Broadcast: AccessTableEventBroadcast> ServiceProvider<Repository, Broadcast> {
    pub fn new(repository: Repository, broadcast: Broadcast) -> (r: Self)
        ensures
            r.repository() == repository,
            r.broadcast() == broadcast,
    {
        ServiceProvider { repository, broadcast }
    }

    pub closed spec fn repository(&self) -> Repository {
        self.repository
    }

    pub closed spec fn broadcast(&self) -> Broadcast {
        self.broadcast
    }
}

impl<Repository: AccessTournaments, Broadcast: AccessTableEventBroadcast> FindTournaments for ServiceProvider<
    Repository,
    Broadcast,
> {
    fn find_tournaments(&self, request: FindTournamentsRequest, auth_info: &AuthInfo) -> Result<
        FindTournamentsResponse,
        FindTournamentsError,
    > {
        find_tournaments(request, auth_info, &self.repository)
    }
}

impl<Repository: AccessTournaments, Broadcast: AccessTableEventBroadcast> CreateTournament for ServiceProvider<
    Repository,
    Broadcast,
> {
    fn create_tournament(&mut self, request: CreateTournamentRequest, auth_info: &AuthInfo) -> Result<
        CreateTournamentResponse,
        CreateTournamentError,
    > {
        let table_count = request.table_count;
        let result = create_tournament(request, auth_info, &mut self.repository);
        match result {
            Ok(response) => {
                self.broadcast.register_table_event_receivers(response.tournament_id, table_count as usize);
                Ok(response)
            },
            Err(e) => Err(e),
        }
    }
}

impl<Repository: AccessTournaments, Broadcast: AccessTableEventBroadcast> JoinTournament for ServiceProvider<
    Repository,
    Broadcast,
> {
    fn join_tournament(&mut self, request: JoinTournamentRequest, auth_info: &AuthInfo) -> Result<
        JoinTournamentResponse,
        JoinTournamentError,
    > {
        join_tournament(request, auth_info, &mut self.repository, &mut self.broadcast)
    }
}

impl<Repository: AccessTournaments, Broadcast: AccessTableEventBroadcast> ObserveTable for ServiceProvider<
    Repository,
    Broadcast,
> {
    fn observe_table(&mut self, request: ObserveTableRequest, auth_info: &AuthInfo) -> Result<
        ObserveTableResponse,
        ObserveTableError,
    > {
        observe_table(request, auth_info, &self.repository, &self.broadcast)
    }
}

} // verus!
