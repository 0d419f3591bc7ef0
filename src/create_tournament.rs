use vstd::prelude::*;

use crate::auth::{AuthError, AuthInfo};
use crate::tournament::{specification_error, Tournament, TournamentSpecification, TournamentSpecificationError};
use crate::traits::{SaveTournament, SaveTournamentError};

verus! {

#[derive(Debug, Clone, Copy, PartialEq, Eq)]
pub enum CreateTournamentError {
    TournamentSpecificationError(TournamentSpecificationError),
    SaveTournamentError(SaveTournamentError),
    AuthError(AuthError),
}

impl From<TournamentSpecificationError> for CreateTournamentError {
    fn from(error: TournamentSpecificationError) -> (r: CreateTournamentError) {
        CreateTournamentError::TournamentSpecificationError(error)
    }
}

impl vstd::std_specs::convert::FromSpecImpl<TournamentSpecificationError> for CreateTournamentError {
    open spec fn obeys_from_spec() -> bool {
        true
    }

    open spec fn from_spec(error: TournamentSpecificationError) -> CreateTournamentError {
        CreateTournamentError::TournamentSpecificationError(error)
    }
}

impl From<SaveTournamentError> for CreateTournamentError {
    fn from(error: SaveTournamentError) -> (r: CreateTournamentError) {
        CreateTournamentError::SaveTournamentError(error)
    }
}

impl vstd::std_specs::convert::FromSpecImpl<SaveTournamentError> for CreateTournamentError {
    open spec fn obeys_from_spec() -> bool {
        true
    }

    open spec fn from_spec(error: SaveTournamentError) -> CreateTournamentError {
        CreateTournamentError::SaveTournamentError(error)
    }
}

impl From<AuthError> for CreateTournamentError {
    fn from(error: AuthError) -> (r: CreateTournamentError) {
        CreateTournamentError::AuthError(error)
    }
}

impl vstd::std_specs::convert::FromSpecImpl<AuthError> for CreateTournamentError {
    open spec fn obeys_from_spec() -> bool {
        true
    }

    open spec fn from_spec(error: AuthError) -> CreateTournamentError {
        CreateTournamentError::AuthError(error)
    }
}

#[derive(Debug, Clone, Copy, PartialEq, Eq)]
pub struct CreateTournamentRequest {
    pub table_count: u8,
    pub table_seat_count: u8,
}

#[derive(Debug, Clone, Copy, PartialEq, Eq)]
pub struct CreateTournamentResponse {
    pub tournament_id: u128,
}

pub trait CreateTournament {
    fn create_tournament(&mut self, request: CreateTournamentRequest, auth_info: &AuthInfo) -> Result<
        CreateTournamentResponse,
        CreateTournamentError,
    >;
}

/// Creates a tournament for an authenticated caller and saves it. Nothing is
/// saved unless the caller is authenticated and the counts are valid.
pub fn create_tournament<Repository: SaveTournament>(
    request: CreateTournamentRequest,
    auth_info: &AuthInfo,
    repository: &mut Repository,
) -> (r: Result<CreateTournamentResponse, CreateTournamentError>)
    ensures
        *auth_info == AuthInfo::Unauthenticated ==> r == Err::<CreateTournamentResponse, CreateTournamentError>(
            CreateTournamentError::AuthError(AuthError::AuthenticationRequired),
        ),
        *auth_info != AuthInfo::Unauthenticated ==> match specification_error(
            request.table_count,
            request.table_seat_count,
        ) {
            Some(e) => r == Err::<CreateTournamentResponse, CreateTournamentError>(
                CreateTournamentError::TournamentSpecificationError(e),
            ),
            None => r is Ok || r matches Err(CreateTournamentError::SaveTournamentError(_)),
        },
        r matches Err(CreateTournamentError::AuthError(_)) ==> *auth_info == AuthInfo::Unauthenticated,
        r matches Err(CreateTournamentError::TournamentSpecificationError(_)) ==> specification_error(
            request.table_count,
            request.table_seat_count,
        ) is Some,
        *auth_info == AuthInfo::Unauthenticated || specification_error(request.table_count, request.table_seat_count)
            is Some ==> *final(repository) == *old(repository),
{
    match auth_info.ensure_authenticated() {
        Ok(_) => {},
        Err(e) => {
            return Err(CreateTournamentError::AuthError(e));
        },
    }
    let tournament_spec = match TournamentSpecification::new(request.table_count, request.table_seat_count) {
        Ok(spec) => spec,
        Err(e) => {
            return Err(CreateTournamentError::TournamentSpecificationError(e));
        },
    };
    let tournament = Tournament::new(&tournament_spec);
    let response = CreateTournamentResponse { tournament_id: tournament.id() };
    match repository.save_tournament(tournament) {
        Ok(()) => Ok(response),
        Err(e) => Err(CreateTournamentError::SaveTournamentError(e)),
    }
}

} // verus!
