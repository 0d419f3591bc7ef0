use vstd::prelude::*;

verus! {

#[derive(Debug, Clone, Copy, PartialEq, Eq, Structural)]
pub enum AuthRole {
    Member,
    Moderator,
    Administrator,
}

#[derive(Debug, Clone, Copy, PartialEq, Eq, Structural)]
pub enum AuthError {
    AuthenticationRequired,
    PermissionDenied { required: AuthRole, found: AuthRole },
}

/// Who makes a request, if anybody is known.
#[derive(Debug, Clone, Copy, PartialEq, Eq, Structural)]
pub enum AuthInfo {
    Unauthenticated,
    Authenticated { account_id: u128, role: AuthRole },
}

impl AuthInfo {
    /// The account of an authenticated caller.
    pub fn ensure_authenticated(&self) -> (r: Result<u128, AuthError>)
        ensures
            match *self {
                AuthInfo::Unauthenticated => r == Err::<u128, AuthError>(AuthError::AuthenticationRequired),
                AuthInfo::Authenticated { account_id, .. } => r == Ok::<u128, AuthError>(account_id),
            },
    {
        match self {
            AuthInfo::Unauthenticated => Err(AuthError::AuthenticationRequired),
            AuthInfo::Authenticated { account_id, .. } => Ok(*account_id),
        }
    }

    /// The account of a caller with moderator or administrator rights.
    pub fn ensure_moderator(&self) -> (r: Result<u128, AuthError>)
        ensures
            match *self {
                AuthInfo::Unauthenticated => r == Err::<u128, AuthError>(AuthError::AuthenticationRequired),
                AuthInfo::Authenticated { account_id, role } => if role == AuthRole::Member {
                    r == Err::<u128, AuthError>(
                        AuthError::PermissionDenied { required: AuthRole::Moderator, found: role },
                    )
                } else {
                    r == Ok::<u128, AuthError>(account_id)
                },
            },
    {
        match self {
            AuthInfo::Unauthenticated => Err(AuthError::AuthenticationRequired),
            AuthInfo::Authenticated { account_id, role } => {
                match role {
                    AuthRole::Member => Err(AuthError::PermissionDenied { required: AuthRole::Moderator, found: *role }),
                    _ => Ok(*account_id),
                }
            },
        }
    }

    /// The account of a caller with administrator rights.
    pub fn ensure_administrator(&self) -> (r: Result<u128, AuthError>)
        ensures
            match *self {
                AuthInfo::Unauthenticated => r == Err::<u128, AuthError>(AuthError::AuthenticationRequired),
                AuthInfo::Authenticated { account_id, role } => if role == AuthRole::Administrator {
                    r == Ok::<u128, AuthError>(account_id)
                } else {
                    r == Err::<u128, AuthError>(
                        AuthError::PermissionDenied { required: AuthRole::Administrator, found: role },
                    )
                },
            },
    {
        match self {
            AuthInfo::Unauthenticated => Err(AuthError::AuthenticationRequired),
            AuthInfo::Authenticated { account_id, role } => {
                match role {
                    AuthRole::Administrator => Ok(*account_id),
                    _ => Err(AuthError::PermissionDenied { required: AuthRole::Administrator, found: *role }),
                }
            },
        }
    }
}

} // verus!
