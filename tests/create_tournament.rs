use cardroom::auth::AuthError;
use cardroom::auth::AuthInfo;
use cardroom::auth::AuthRole;
use cardroom::create_tournament::create_tournament;
use cardroom::create_tournament::CreateTournamentError;
use cardroom::create_tournament::CreateTournamentRequest;
use cardroom::tournament::Tournament;
use cardroom::traits::SaveTournament;
use cardroom::traits::SaveTournamentError;
use uuid::Uuid;

struct DummyRepository {
    save_error: Option<SaveTournamentError>,
    tournament: Option<Tournament>,
}

impl DummyRepository {
    fn new_with_successful_save() -> Self {
        Self { save_error: None, tournament: None }
    }

    fn new_with_error_on_save(error: SaveTournamentError) -> Self {
        Self { save_error: Some(error), tournament: None }
    }

    fn tournament(&self) -> Option<&Tournament> {
        self.tournament.as_ref()
    }
}

impl SaveTournament for DummyRepository {
    fn save_tournament(&mut self, tournament: Tournament) -> Result<(), SaveTournamentError> {
        if matches!(self.save_error, Some(SaveTournamentError::DatabaseWritingError)) {
            Err(SaveTournamentError::DatabaseWritingError)
        } else if matches!(self.save_error, Some(SaveTournamentError::TournamentOutdated)) {
            Err(SaveTournamentError::TournamentOutdated)
        } else {
            self.tournament = Some(tournament);
            Ok(())
        }
    }
}

#[test]
fn create_tournament_without_being_authenticated() {
    let mut repository = DummyRepository::new_with_successful_save();
    let request = CreateTournamentRequest { table_count: 1, table_seat_count: 5 };
    let auth_info = AuthInfo::Unauthenticated;
    let result = create_tournament(request, &auth_info, &mut repository);
    assert!(matches!(result, Err(CreateTournamentError::AuthError(AuthError::AuthenticationRequired))));
    assert_eq!(repository.tournament(), None);
}

#[test]
fn create_tournament_with_invalid_parameters() {
    let mut repository = DummyRepository::new_with_successful_save();
    let request = CreateTournamentRequest { table_count: 0, table_seat_count: 5 };
    let auth_info = AuthInfo::Authenticated { account_id: Uuid::new_v4().as_u128(), role: AuthRole::Member };
    let result = create_tournament(request, &auth_info, &mut repository);
    assert!(matches!(result, Err(CreateTournamentError::TournamentSpecificationError(_))));
    assert_eq!(repository.tournament(), None);
}

#[test]
fn create_tournament_with_repository_error() {
    let mut repository = DummyRepository::new_with_error_on_save(SaveTournamentError::DatabaseWritingError);
    let request = CreateTournamentRequest { table_count: 50, table_seat_count: 5 };
    let auth_info = AuthInfo::Authenticated { account_id: Uuid::new_v4().as_u128(), role: AuthRole::Member };
    let result = create_tournament(request, &auth_info, &mut repository);
    assert!(matches!(result, Err(CreateTournamentError::SaveTournamentError(SaveTournamentError::DatabaseWritingError))));
}

#[test]
fn create_tournament_without_any_error() {
    let mut repository = DummyRepository::new_with_successful_save();
    let request = CreateTournamentRequest { table_count: 50, table_seat_count: 5 };
    let auth_info = AuthInfo::Authenticated { account_id: Uuid::new_v4().as_u128(), role: AuthRole::Member };
    let result = create_tournament(request, &auth_info, &mut repository);
    let tournament = repository.tournament().unwrap();
    assert!(result.is_ok_and(|response| response.tournament_id == tournament.id()));
    assert_eq!(tournament.table_count(), 50);
    assert_eq!(tournament.table_seat_count(), 5);
}
