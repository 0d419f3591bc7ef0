use cardroom::auth::AuthError;
use cardroom::auth::AuthInfo;
use cardroom::auth::AuthRole;
use cardroom::routing::TableEventBroadcast;
use cardroom::observe_table::observe_table;
use cardroom::observe_table::ObserveTableError;
use cardroom::observe_table::ObserveTableRequest;
use cardroom::tournament::Tournament;
use cardroom::tournament::TournamentError;
use cardroom::tournament::TournamentMessage;
use cardroom::tournament::TournamentMessageType;
use cardroom::tournament::TournamentSpecification;
use cardroom::traits::LoadTournament;
use cardroom::traits::LoadTournamentError;
use cardroom::TableEvent;
use cardroom::TableEventType;
use uuid::Uuid;

struct DummyRepository {
    tournament: Tournament,
}

impl LoadTournament for DummyRepository {
    fn load_tournament(&self, tournament_id: u128) -> Result<Tournament, LoadTournamentError> {
        if self.tournament.id() == tournament_id {
            Ok(self.tournament.clone())
        } else {
            Err(LoadTournamentError::TournamentNotFound)
        }
    }
}

fn setup() -> (DummyRepository, TableEventBroadcast, u128) {
    let spec = TournamentSpecification::new(2, 2).unwrap();
    let tournament = Tournament::new(&spec);
    let tournament_id = tournament.id();
    let mut broadcast = TableEventBroadcast::new();
    broadcast.register_table_event_receivers(tournament_id, 2);
    (DummyRepository { tournament }, broadcast, tournament_id)
}

#[test]
fn observe_table_dummy() {
    let (repository, mut broadcast, tournament_id) = setup();
    let auth_info = AuthInfo::Authenticated { account_id: Uuid::new_v4().as_u128(), role: AuthRole::Member };
    let event = TableEvent { table_id: 1, event_type: TableEventType::PlayerLeft { position: 0 } };
    let table_number = 0;
    let request = ObserveTableRequest { tournament_id, table_number };
    let result = observe_table(request, &auth_info, &repository, &broadcast);
    assert!(result.is_ok());
    let mut receiver = result.unwrap().receiver;
    broadcast.publish(vec![TournamentMessage {
        tournament_id,
        message_type: TournamentMessageType::TableMessage { table_number, message_type: event.clone() },
    }]);
    assert_eq!(receiver.try_recv().unwrap(), event);
}

#[test]
fn observe_table_errors() {
    let (repository, broadcast, tournament_id) = setup();
    let member = AuthInfo::Authenticated { account_id: 3, role: AuthRole::Member };
    let result = observe_table(ObserveTableRequest { tournament_id, table_number: 0 }, &AuthInfo::Unauthenticated, &repository, &broadcast);
    assert!(matches!(result, Err(ObserveTableError::AuthError(AuthError::AuthenticationRequired))));
    let result = observe_table(ObserveTableRequest { tournament_id, table_number: 2 }, &member, &repository, &broadcast);
    assert!(matches!(result, Err(ObserveTableError::TournamentError(TournamentError::NotSuchTable))));
    let result = observe_table(ObserveTableRequest { tournament_id: tournament_id ^ 1, table_number: 0 }, &member, &repository, &broadcast);
    assert!(matches!(result, Err(ObserveTableError::LoadTournamentError(LoadTournamentError::TournamentNotFound))));
    let unregistered = TableEventBroadcast::new();
    let result = observe_table(ObserveTableRequest { tournament_id, table_number: 1 }, &member, &repository, &unregistered);
    assert!(matches!(result, Err(ObserveTableError::TournamentError(TournamentError::NotSuchTable))));
}
