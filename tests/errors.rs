use cardroom::auth::AuthError;
use cardroom::create_tournament::CreateTournamentError;
use cardroom::find_tournaments::FindTournamentsError;
use cardroom::join_tournament::JoinTournamentError;
use cardroom::observe_table::ObserveTableError;
use cardroom::traits::LoadTournamentError;
use cardroom::traits::QueryTournamentsError;
use cardroom::traits::SaveTournamentError;
use cardroom::NicknameError;
use cardroom::TableSpecificationError;
use cardroom::TournamentError;
use cardroom::TournamentSpecificationError;

#[test]
fn errors_convert_into_their_wrappers() {
    assert_eq!(
        TournamentSpecificationError::from(TableSpecificationError::TooManySeats { found: 11 }),
        TournamentSpecificationError::TableSpecificationError(TableSpecificationError::TooManySeats { found: 11 })
    );
    assert_eq!(
        CreateTournamentError::from(SaveTournamentError::TournamentOutdated),
        CreateTournamentError::SaveTournamentError(SaveTournamentError::TournamentOutdated)
    );
    assert_eq!(
        CreateTournamentError::from(AuthError::AuthenticationRequired),
        CreateTournamentError::AuthError(AuthError::AuthenticationRequired)
    );
    assert_eq!(
        FindTournamentsError::from(QueryTournamentsError::DatabaseQueryError),
        FindTournamentsError::QueryTournamentsError(QueryTournamentsError::DatabaseQueryError)
    );
    assert_eq!(
        JoinTournamentError::from(NicknameError::NicknameTooLong),
        JoinTournamentError::NicknameError(NicknameError::NicknameTooLong)
    );
    assert_eq!(
        JoinTournamentError::from(TournamentError::PlayerAlreadyJoined),
        JoinTournamentError::TournamentError(TournamentError::PlayerAlreadyJoined)
    );
    assert_eq!(
        ObserveTableError::from(LoadTournamentError::TournamentNotFound),
        ObserveTableError::LoadTournamentError(LoadTournamentError::TournamentNotFound)
    );
}
