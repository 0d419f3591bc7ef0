use cardroom::auth::AuthError;
use cardroom::auth::AuthInfo;
use cardroom::auth::AuthRole;
use cardroom::join_tournament::join_tournament;
use cardroom::join_tournament::JoinTournamentError;
use cardroom::join_tournament::JoinTournamentRequest;
use cardroom::tournament::Tournament;
use cardroom::tournament::TournamentMessage;
use cardroom::tournament::TournamentSpecification;
use cardroom::traits::LoadTournament;
use cardroom::traits::LoadTournamentError;
use cardroom::traits::PublishTournamentEvents;
use cardroom::traits::SaveTournament;
use cardroom::traits::SaveTournamentError;
use cardroom::Nickname;
use uuid::Uuid;

struct DummyRepository {
    load_error: Option<LoadTournamentError>,
    save_error: Option<SaveTournamentError>,
    tournament: Option<Tournament>,
}

impl DummyRepository {
    fn new_with_error_on_load(load_error: LoadTournamentError) -> Self {
        Self { load_error: Some(load_error), save_error: None, tournament: None }
    }

    fn new_with_error_on_save(save_error: SaveTournamentError, tournament: Tournament) -> Self {
        Self { load_error: None, save_error: Some(save_error), tournament: Some(tournament) }
    }

    fn new_without_tournament() -> Self {
        Self { load_error: None, save_error: None, tournament: None }
    }

    fn new_with_tournament(tournament: Tournament) -> Self {
        Self { load_error: None, save_error: None, tournament: Some(tournament) }
    }

    fn tournament(&self) -> Option<&Tournament> {
        self.tournament.as_ref()
    }
}

impl LoadTournament for DummyRepository {
    fn load_tournament(&self, tournament_id: u128) -> Result<Tournament, LoadTournamentError> {
        if let Some(error) = self.load_error {
            Err(error)
        } else if let Some(tournament) = &self.tournament {
            if tournament.id() == tournament_id {
                Ok(tournament.clone())
            } else {
                Err(LoadTournamentError::TournamentNotFound)
            }
        } else {
            Err(LoadTournamentError::TournamentNotFound)
        }
    }
}

impl SaveTournament for DummyRepository {
    fn save_tournament(&mut self, tournament: Tournament) -> Result<(), SaveTournamentError> {
        if let Some(error) = self.save_error {
            Err(error)
        } else {
            self.tournament = Some(tournament);
            Ok(())
        }
    }
}

struct DummyPublisher {
    messages: Vec<TournamentMessage>,
}

impl DummyPublisher {
    fn new() -> Self {
        Self { messages: vec![] }
    }

    fn consume(&mut self) -> Vec<TournamentMessage> {
        std::mem::take(&mut self.messages)
    }
}

impl PublishTournamentEvents for DummyPublisher {
    fn publish_tournament_events(&mut self, messages: Vec<TournamentMessage>) {
        self.messages = messages;
    }
}

fn member() -> AuthInfo {
    AuthInfo::Authenticated { account_id: Uuid::new_v4().as_u128(), role: AuthRole::Member }
}

#[test]
fn join_tournament_without_being_authenticated() {
    let mut repository = DummyRepository::new_without_tournament();
    let mut publisher = DummyPublisher::new();
    let request = JoinTournamentRequest { tournament_id: Uuid::new_v4().as_u128(), nickname: "Daniel".into() };
    let auth_info = AuthInfo::Unauthenticated;
    let result = join_tournament(request, &auth_info, &mut repository, &mut publisher);
    assert!(matches!(result, Err(JoinTournamentError::AuthError(AuthError::AuthenticationRequired))));
    assert_eq!(publisher.consume(), vec![]);
    assert_eq!(repository.tournament(), None);
}

#[test]
fn join_tournament_with_invalid_parameters() {
    let mut repository = DummyRepository::new_without_tournament();
    let mut publisher = DummyPublisher::new();
    let request = JoinTournamentRequest { tournament_id: Uuid::new_v4().as_u128(), nickname: "".into() };
    let auth_info = member();
    let result = join_tournament(request, &auth_info, &mut repository, &mut publisher);
    assert!(matches!(result, Err(JoinTournamentError::NicknameError(_))));
    assert_eq!(publisher.consume(), vec![]);
    assert_eq!(repository.tournament(), None);
}

#[test]
fn join_tournament_with_repository_error_on_load() {
    let mut repository = DummyRepository::new_with_error_on_load(LoadTournamentError::DatabaseReadingError);
    let mut publisher = DummyPublisher::new();
    let request = JoinTournamentRequest { tournament_id: Uuid::new_v4().as_u128(), nickname: "Daniel".into() };
    let auth_info = member();
    let result = join_tournament(request, &auth_info, &mut repository, &mut publisher);
    assert!(matches!(result, Err(JoinTournamentError::LoadTournamentError(LoadTournamentError::DatabaseReadingError))));
    assert_eq!(publisher.consume(), vec![]);
}

#[test]
fn join_tournament_with_repository_error_on_save() {
    let spec = TournamentSpecification::new(1, 2).unwrap();
    let tournament = Tournament::new(&spec);
    let tournament_id = tournament.id();
    let mut repository = DummyRepository::new_with_error_on_save(SaveTournamentError::DatabaseWritingError, tournament);
    let mut publisher = DummyPublisher::new();
    let request = JoinTournamentRequest { tournament_id, nickname: "Daniel".into() };
    let auth_info = member();
    let result = join_tournament(request, &auth_info, &mut repository, &mut publisher);
    assert!(matches!(result, Err(JoinTournamentError::SaveTournamentError(SaveTournamentError::DatabaseWritingError))));
    assert_eq!(publisher.consume(), vec![]);
}

#[test]
fn join_tournament_with_tournament_error() {
    let spec = TournamentSpecification::new(1, 2).unwrap();
    let mut tournament = Tournament::new(&spec);
    _ = tournament.join(Uuid::new_v4().as_u128(), Nickname::new("James").unwrap());
    _ = tournament.join(Uuid::new_v4().as_u128(), Nickname::new("Patricia").unwrap());
    let tournament_id = tournament.id();
    let mut repository = DummyRepository::new_with_tournament(tournament);
    let mut publisher = DummyPublisher::new();
    let request = JoinTournamentRequest { tournament_id, nickname: "Daniel".into() };
    let auth_info = member();
    let result = join_tournament(request, &auth_info, &mut repository, &mut publisher);
    assert!(matches!(result, Err(JoinTournamentError::TournamentError(_))));
    assert_eq!(publisher.consume(), vec![]);
}

#[test]
fn join_tournament_without_any_error() {
    let spec = TournamentSpecification::new(1, 2).unwrap();
    let tournament = Tournament::new(&spec);
    let tournament_id = tournament.id();
    let mut repository = DummyRepository::new_with_tournament(tournament);
    let mut publisher = DummyPublisher::new();
    let request = JoinTournamentRequest { tournament_id, nickname: "Daniel".into() };
    let auth_info = member();
    let result = join_tournament(request, &auth_info, &mut repository, &mut publisher);
    assert!(result.is_ok_and(|response| response.table_number == 0));
    let tournament_messages = publisher.consume();
    assert_eq!(tournament_messages.len(), 1);
}

#[test]
fn join_tournament_with_too_long_nickname() {
    let mut repository = DummyRepository::new_without_tournament();
    let mut publisher = DummyPublisher::new();
    let request = JoinTournamentRequest { tournament_id: 7, nickname: "x".repeat(13) };
    let result = join_tournament(request, &member(), &mut repository, &mut publisher);
    assert!(matches!(
        result,
        Err(JoinTournamentError::NicknameError(cardroom::NicknameError::NicknameTooLong))
    ));
}

#[test]
fn join_tournament_of_unknown_tournament() {
    let spec = TournamentSpecification::new(1, 2).unwrap();
    let mut repository = DummyRepository::new_with_tournament(Tournament::new(&spec));
    let mut publisher = DummyPublisher::new();
    let request = JoinTournamentRequest { tournament_id: 7, nickname: "Daniel".into() };
    let result = join_tournament(request, &member(), &mut repository, &mut publisher);
    assert!(matches!(result, Err(JoinTournamentError::LoadTournamentError(LoadTournamentError::TournamentNotFound))));
}
