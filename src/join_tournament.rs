use vstd::prelude::*;

use crate::auth::{AuthError, AuthInfo};
use crate::nickname::{valid_nickname, Nickname, NicknameError, MAX_NICKNAME_LEN};
use crate::services::save_tournament_and_publish_messages;
use crate::tournament::TournamentError;
use crate::traits::{
    LoadTournament, LoadTournamentError, PublishTournamentEvents, SaveTournament, SaveTournamentError,
};

verus! {

#[derive(Debug, Clone, Copy, PartialEq, Eq)]
pub enum JoinTournamentError {
    NicknameError(NicknameError),
    LoadTournamentError(LoadTournamentError),
    SaveTournamentError(SaveTournamentError),
    TournamentError(TournamentError),
    AuthError(AuthError),
}

impl From<NicknameError> for JoinTournamentError {
    fn from(error: NicknameError) -> (r: JoinTournamentError) {
        JoinTournamentError::NicknameError(error)
    }
}

impl vstd::std_specs::convert::FromSpecImpl<NicknameError> for JoinTournamentError {
    open spec fn obeys_from_spec() -> bool {
        true
    }

    open spec fn from_spec(error: NicknameError) -> JoinTournamentError {
        JoinTournamentError::NicknameError(error)
    }
}

impl From<LoadTournamentError> for JoinTournamentError {
    fn from(error: LoadTournamentError) -> (r: JoinTournamentError) {
        JoinTournamentError::LoadTournamentError(error)
    }
}

impl vstd::std_specs::convert::FromSpecImpl<LoadTournamentError> for JoinTournamentError {
    open spec fn obeys_from_spec() -> bool {
        true
    }

    open spec fn from_spec(error: LoadTournamentError) -> JoinTournamentError {
        JoinTournamentError::LoadTournamentError(error)
    }
}

impl From<SaveTournamentError> for JoinTournamentError {
    fn from(error: SaveTournamentError) -> (r: JoinTournamentError) {
        JoinTournamentError::SaveTournamentError(error)
    }
}

impl vstd::std_specs::convert::FromSpecImpl<SaveTournamentError> for JoinTournamentError {
    open spec fn obeys_from_spec() -> bool {
        true
    }

    open spec fn from_spec(error: SaveTournamentError) -> JoinTournamentError {
        JoinTournamentError::SaveTournamentError(error)
    }
}

impl From<TournamentError> for JoinTournamentError {
    fn from(error: TournamentError) -> (r: JoinTournamentError) {
        JoinTournamentError::TournamentError(error)
    }
}

impl vstd::std_specs::convert::FromSpecImpl<TournamentError> for JoinTournamentError {
    open spec fn obeys_from_spec() -> bool {
        true
    }

    open spec fn from_spec(error: TournamentError) -> JoinTournamentError {
        JoinTournamentError::TournamentError(error)
    }
}

impl From<AuthError> for JoinTournamentError {
    fn from(error: AuthError) -> (r: JoinTournamentError) {
        JoinTournamentError::AuthError(error)
    }
}

impl vstd::std_specs::convert::FromSpecImpl<AuthError> for JoinTournamentError {
    open spec fn obeys_from_spec() -> bool {
        true
    }

    open spec fn from_spec(error: AuthError) -> JoinTournamentError {
        JoinTournamentError::AuthError(error)
    }
}

#[derive(Debug, Clone, PartialEq, Eq)]
pub struct JoinTournamentRequest {
    pub tournament_id: u128,
    pub nickname: String,
}

#[derive(Debug, Clone, Copy, PartialEq, Eq)]
pub struct JoinTournamentResponse {
    pub table_number: usize,
}

pub trait JoinTournament {
    fn join_tournament(&mut self, request: JoinTournamentRequest, auth_info: &AuthInfo) -> Result<
        JoinTournamentResponse,
        JoinTournamentError,
    >;
}

/// Seats an authenticated caller in a stored tournament under the requested
/// nickname, saves the tournament and, once it is saved, publishes what the
/// join recorded. The caller and the nickname are checked before anything is
/// loaded.
pub fn join_tournament<Repository: LoadTournament + SaveTournament, Publisher: PublishTournamentEvents>(
    request: JoinTournamentRequest,
    auth_info: &AuthInfo,
    repository: &mut Repository,
    publisher: &mut Publisher,
) -> (r: Result<JoinTournamentResponse, JoinTournamentError>)
    ensures
        *auth_info == AuthInfo::Unauthenticated ==> r == Err::<JoinTournamentResponse, JoinTournamentError>(
            JoinTournamentError::AuthError(AuthError::AuthenticationRequired),
        ),
        *auth_info != AuthInfo::Unauthenticated && request.nickname@.len() == 0 ==> r == Err::<
            JoinTournamentResponse,
            JoinTournamentError,
        >(JoinTournamentError::NicknameError(NicknameError::NicknameTooShort)),
        *auth_info != AuthInfo::Unauthenticated && request.nickname@.len() > MAX_NICKNAME_LEN ==> r == Err::<
            JoinTournamentResponse,
            JoinTournamentError,
        >(JoinTournamentError::NicknameError(NicknameError::NicknameTooLong)),
        r is Ok ==> *auth_info != AuthInfo::Unauthenticated && valid_nickname(request.nickname@),
        *auth_info == AuthInfo::Unauthenticated || !valid_nickname(request.nickname@) ==> *final(repository)
            == *old(repository),
        r is Err ==> *final(publisher) == *old(publisher),
        r matches Err(JoinTournamentError::AuthError(_)) ==> *auth_info == AuthInfo::Unauthenticated,
        r matches Err(JoinTournamentError::NicknameError(_)) ==> !valid_nickname(request.nickname@),
{
    let account_id = match auth_info.ensure_authenticated() {
        Ok(id) => id,
        Err(e) => {
            return Err(JoinTournamentError::AuthError(e));
        },
    };
    let nickname = match Nickname::new(request.nickname.as_str()) {
        Ok(n) => n,
        Err(e) => {
            return Err(JoinTournamentError::NicknameError(e));
        },
    };
    let mut tournament = match repository.load_tournament(request.tournament_id) {
        Ok(t) => t,
        Err(e) => {
            return Err(JoinTournamentError::LoadTournamentError(e));
        },
    };
    let table_number = match tournament.join(account_id, nickname) {
        Ok(n) => n,
        Err(e) => {
            return Err(JoinTournamentError::TournamentError(e));
        },
    };
    match save_tournament_and_publish_messages(tournament, repository, publisher) {
        Ok(()) => Ok(JoinTournamentResponse { table_number }),
        Err(e) => Err(JoinTournamentError::SaveTournamentError(e)),
    }
}

} // verus!
