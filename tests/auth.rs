use cardroom::auth::AuthError;
use cardroom::auth::AuthInfo;
use cardroom::auth::AuthRole;
use uuid::Uuid;

#[test]
fn ensure_authenticated() {
    let auth_info = AuthInfo::Unauthenticated;
    assert!(matches!(auth_info.ensure_authenticated(), Err(AuthError::AuthenticationRequired)));
    let account_id = Uuid::new_v4().as_u128();
    let auth_info = AuthInfo::Authenticated { account_id, role: AuthRole::Member };
    assert!(matches!(auth_info.ensure_authenticated(), Ok(id) if id == account_id));
    let auth_info = AuthInfo::Authenticated { account_id, role: AuthRole::Moderator };
    assert!(matches!(auth_info.ensure_authenticated(), Ok(id) if id == account_id));
    let auth_info = AuthInfo::Authenticated { account_id, role: AuthRole::Administrator };
    assert!(matches!(auth_info.ensure_authenticated(), Ok(id) if id == account_id));
}

#[test]
fn ensure_moderator() {
    let auth_info = AuthInfo::Unauthenticated;
    assert!(matches!(auth_info.ensure_moderator(), Err(AuthError::AuthenticationRequired)));
    let account_id = Uuid::new_v4().as_u128();
    let auth_info = AuthInfo::Authenticated { account_id, role: AuthRole::Member };
    assert!(matches!(auth_info.ensure_moderator(), Err(AuthError::PermissionDenied { required: AuthRole::Moderator, found: AuthRole::Member })));
    let auth_info = AuthInfo::Authenticated { account_id, role: AuthRole::Moderator };
    assert!(matches!(auth_info.ensure_moderator(), Ok(id) if id == account_id));
    let auth_info = AuthInfo::Authenticated { account_id, role: AuthRole::Administrator };
    assert!(matches!(auth_info.ensure_moderator(), Ok(id) if id == account_id));
}

#[test]
fn ensure_administrator() {
    let auth_info = AuthInfo::Unauthenticated;
    assert!(matches!(auth_info.ensure_administrator(), Err(AuthError::AuthenticationRequired)));
    let account_id = Uuid::new_v4().as_u128();
    let auth_info = AuthInfo::Authenticated { account_id, role: AuthRole::Member };
    assert!(matches!(auth_info.ensure_administrator(), Err(AuthError::PermissionDenied { required: AuthRole::Administrator, found: AuthRole::Member })));
    let auth_info = AuthInfo::Authenticated { account_id, role: AuthRole::Moderator };
    assert!(matches!(auth_info.ensure_administrator(), Err(AuthError::PermissionDenied { required: AuthRole::Administrator, found: AuthRole::Moderator })));
    let auth_info = AuthInfo::Authenticated { account_id, role: AuthRole::Administrator };
    assert!(matches!(auth_info.ensure_administrator(), Ok(id) if id == account_id));
}
