use vstd::prelude::*;

use crate::table::TableEvent;
use crate::tournament::{Tournament, TournamentMessage};

use tokio::sync::broadcast::Receiver;

verus! {

#[derive(Debug, Clone, Copy, PartialEq, Eq)]
pub enum LoadTournamentError {
    TournamentNotFound,
    DatabaseReadingError,
}

/// Reads the tournament with the given identity from storage. A tournament
/// can only be built by this library, so whatever is handed back is well
/// formed.
pub trait LoadTournament {
    fn load_tournament(&self, tournament_id: u128) -> (r: Result<Tournament, LoadTournamentError>)
        ensures
            r matches Ok(t) ==> t.wf() && t.identity() == tournament_id,
    ;
}

#[derive(Debug, Clone, Copy, PartialEq, Eq)]
pub enum SaveTournamentError {
    TournamentOutdated,
    DatabaseWritingError,
}

/// Writes a tournament to storage; a newer stored version of it makes the
/// write fail as outdated.
pub trait SaveTournament {
    fn save_tournament(&mut self, tournament: Tournament) -> Result<(), SaveTournamentError>
        requires
            tournament.wf(),
    ;
}

#[derive(Debug, Clone, Copy, PartialEq, Eq)]
pub enum QueryTournamentsError {
    DatabaseQueryError,
}

/// Lists the stored tournaments.
pub trait QueryTournaments {
    fn query_tournaments(&self) -> (r: Result<Vec<Tournament>, QueryTournamentsError>)
        ensures
            r matches Ok(v) ==> forall|i: int| 0 <= i < v@.len() ==> (#[trigger] v@[i]).wf(),
    ;
}

pub trait AccessTournaments: LoadTournament + SaveTournament + QueryTournaments {

}

impl<T: LoadTournament + SaveTournament + QueryTournaments> AccessTournaments for T {

}

/// Hands tournament messages on to the observers of their tables.
pub trait PublishTournamentEvents {
    fn publish_tournament_events(&mut self, messages: Vec<TournamentMessage>);
}

/// Opens the channels of a tournament's tables.
pub trait RegisterTableEventReceivers {
    fn register_table_event_receivers(&mut self, tournament_id: u128, table_count: usize);
}

/// Gives a receiver of one table's occurrences, if that table is known.
pub trait SubscribeTableEvents {
    fn subscribe_table_events(&self, tournament_id: u128, table_number: usize) -> Option<Receiver<TableEvent>>;
}

pub trait AccessTableEventBroadcast: PublishTournamentEvents + RegisterTableEventReceivers + SubscribeTableEvents {

}

impl<T: PublishTournamentEvents + RegisterTableEventReceivers + SubscribeTableEvents> AccessTableEventBroadcast for T {

}

} // verus!
