use vstd::prelude::*;

use crate::tournament::Tournament;
use crate::traits::{PublishTournamentEvents, SaveTournament, SaveTournamentError};

verus! {

/// Saves the tournament and, only once it is saved, publishes the messages it
/// had recorded.
pub fn save_tournament_and_publish_messages<Repository: SaveTournament, Publisher: PublishTournamentEvents>(
    tournament: Tournament,
    repository: &mut Repository,
    publisher: &mut Publisher,
) -> (r: Result<(), SaveTournamentError>)
    requires
        tournament.wf(),
    ensures
        r is Err ==> *final(publisher) == *old(publisher),
{
    let mut tournament = tournament;
    let tournament_messages = tournament.collect_messages();
    match repository.save_tournament(tournament) {
        Ok(()) => {
            publisher.publish_tournament_events(tournament_messages);
            Ok(())
        },
        Err(e) => Err(e),
    }
}

} // verus!
