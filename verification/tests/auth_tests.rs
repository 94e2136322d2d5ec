use mitigation_core::auth::{
    auth_middleware, constant_time_eq, hybrid_auth_middleware, require_auth, require_role,
    require_role_at, validate_bearer_token, AuthError, AuthMode, AuthSession, AuthState, Operator,
    OperatorRole,
};

fn state(mode: AuthMode, token: Option<&str>) -> AuthState {
    AuthState { mode, bearer_token: token.map(String::from) }
}

fn nobody() -> AuthSession {
    AuthSession { user: None }
}

fn logged_in(role: OperatorRole) -> AuthSession {
    AuthSession {
        user: Some(Operator {
            operator_id: 42,
            username: "alice".to_string(),
            password_hash: "x".to_string(),
            role,
            created_at: 1,
            created_by: None,
            last_login_at: Some(2),
        }),
    }
}

#[test]
fn test_constant_time_eq() {
    assert!(constant_time_eq(b"hello", b"hello"));
    assert!(!constant_time_eq(b"hello", b"world"));
    assert!(!constant_time_eq(b"hello", b"hell"));
}

#[test]
fn constant_time_eq_on_edges() {
    assert!(constant_time_eq(b"", b""));
    assert!(!constant_time_eq(b"", b"a"));
    assert!(!constant_time_eq(&[0x01, 0x02], &[0x02, 0x01]));
    assert!(!constant_time_eq(&[0x80], &[0x00]));
}

#[test]
fn require_auth_by_mode() {
    let open = state(AuthMode::Disabled, None);
    assert_eq!(require_auth(&open, &nobody(), None), Ok(()));
    let mtls = state(AuthMode::Mtls, None);
    assert_eq!(require_auth(&mtls, &nobody(), None), Ok(()));
    let cred = state(AuthMode::Credentials, Some("secret"));
    assert_eq!(require_auth(&cred, &nobody(), Some("Bearer secret")), Err(AuthError::Unauthorized));
    assert_eq!(require_auth(&cred, &logged_in(OperatorRole::Viewer), None), Ok(()));
    let bearer = state(AuthMode::Bearer, Some("secret"));
    assert_eq!(require_auth(&bearer, &nobody(), Some("Bearer secret")), Ok(()));
    assert_eq!(require_auth(&bearer, &logged_in(OperatorRole::Viewer), None), Ok(()));
    assert_eq!(require_auth(&bearer, &nobody(), Some("Bearer wrong")), Err(AuthError::Unauthorized));
    assert_eq!(require_auth(&bearer, &nobody(), Some("bearer secret")), Err(AuthError::Unauthorized));
    assert_eq!(require_auth(&bearer, &nobody(), Some("Bearer secret ")), Err(AuthError::Unauthorized));
    assert_eq!(require_auth(&bearer, &nobody(), Some("Bearer")), Err(AuthError::Unauthorized));
    assert_eq!(require_auth(&bearer, &nobody(), None), Err(AuthError::Unauthorized));
    let unloaded = state(AuthMode::Bearer, None);
    assert_eq!(require_auth(&unloaded, &nobody(), Some("Bearer ")), Err(AuthError::Unauthorized));
    let empty = state(AuthMode::Bearer, Some(""));
    assert_eq!(require_auth(&empty, &nobody(), Some("Bearer ")), Ok(()));
}

#[test]
fn require_role_stand_ins() {
    let open = state(AuthMode::Disabled, None);
    let op = require_role_at(&open, &nobody(), None, OperatorRole::Admin, 99).unwrap();
    assert_eq!(op.username, "anonymous");
    assert_eq!(op.role, OperatorRole::Admin);
    assert_eq!(op.operator_id, 0);
    assert_eq!(op.created_at, 99);
    assert_eq!(op.password_hash, "");
    assert_eq!(op.created_by, None);
    assert_eq!(op.last_login_at, None);
    let mtls = state(AuthMode::Mtls, None);
    let op = require_role_at(&mtls, &logged_in(OperatorRole::Viewer), None, OperatorRole::Admin, 5)
        .unwrap();
    assert_eq!(op.username, "mtls-client");
    let bearer = state(AuthMode::Bearer, Some("tok"));
    let op =
        require_role_at(&bearer, &nobody(), Some("Bearer tok"), OperatorRole::Operator, 7).unwrap();
    assert_eq!(op.username, "bearer-token");
    assert_eq!(op.role, OperatorRole::Operator);
    assert_eq!(op.created_at, 7);
    let r = require_role_at(&bearer, &nobody(), Some("Bearer tok"), OperatorRole::Admin, 7);
    assert_eq!(r.unwrap_err(), AuthError::Forbidden);
    let r = require_role_at(&bearer, &nobody(), Some("Bearer no"), OperatorRole::Viewer, 7);
    assert_eq!(r.unwrap_err(), AuthError::Unauthorized);
    let cred = state(AuthMode::Credentials, Some("tok"));
    let op = require_role_at(&cred, &nobody(), Some("Bearer tok"), OperatorRole::Viewer, 7).unwrap();
    assert_eq!(op.username, "bearer-token");
}

#[test]
fn require_role_checks_the_session_operator() {
    let cred = state(AuthMode::Credentials, None);
    let op =
        require_role_at(&cred, &logged_in(OperatorRole::Operator), None, OperatorRole::Viewer, 3)
            .unwrap();
    assert_eq!(op.username, "alice");
    assert_eq!(op.operator_id, 42);
    assert_eq!(op.created_at, 1);
    let r = require_role_at(&cred, &logged_in(OperatorRole::Operator), None, OperatorRole::Admin, 3);
    assert_eq!(r.unwrap_err(), AuthError::Forbidden);
    let r = require_role_at(
        &state(AuthMode::Bearer, Some("t")),
        &logged_in(OperatorRole::Viewer),
        Some("Bearer t"),
        OperatorRole::Operator,
        3,
    );
    assert_eq!(r.unwrap_err(), AuthError::Forbidden);
    let r = require_role(&cred, &nobody(), None, OperatorRole::Viewer);
    assert_eq!(r.unwrap_err(), AuthError::Unauthorized);
    let op = require_role(&state(AuthMode::Disabled, None), &nobody(), None, OperatorRole::Admin)
        .unwrap();
    assert!(op.created_at > 1_500_000_000_000_000);
}

#[test]
fn roles_include_the_ones_below() {
    let admin = OperatorRole::Admin;
    let operator = OperatorRole::Operator;
    let viewer = OperatorRole::Viewer;
    assert!(admin.has_permission(&admin));
    assert!(admin.has_permission(&operator));
    assert!(admin.has_permission(&viewer));
    assert!(!operator.has_permission(&admin));
    assert!(operator.has_permission(&operator));
    assert!(operator.has_permission(&viewer));
    assert!(!viewer.has_permission(&admin));
    assert!(!viewer.has_permission(&operator));
    assert!(viewer.has_permission(&viewer));
}

#[test]
fn middleware_decisions() {
    assert_eq!(auth_middleware(&state(AuthMode::Disabled, None), None), Ok(()));
    assert_eq!(auth_middleware(&state(AuthMode::Mtls, None), None), Ok(()));
    assert_eq!(
        auth_middleware(&state(AuthMode::Credentials, Some("t")), Some("Bearer t")),
        Err(AuthError::Unauthorized)
    );
    assert_eq!(auth_middleware(&state(AuthMode::Bearer, Some("t")), Some("Bearer t")), Ok(()));
    assert_eq!(
        auth_middleware(&state(AuthMode::Bearer, None), Some("Bearer t")),
        Err(AuthError::Internal)
    );
    assert_eq!(
        auth_middleware(&state(AuthMode::Bearer, Some("t")), None),
        Err(AuthError::Unauthorized)
    );
    assert_eq!(validate_bearer_token(&state(AuthMode::Bearer, None), None), Err(AuthError::Internal));
    assert_eq!(
        validate_bearer_token(&state(AuthMode::Bearer, Some("t")), Some("Basic t")),
        Err(AuthError::Unauthorized)
    );
    assert_eq!(hybrid_auth_middleware(&state(AuthMode::Disabled, None), None), Ok(()));
    assert_eq!(
        hybrid_auth_middleware(&state(AuthMode::Mtls, Some("t")), None),
        Err(AuthError::Unauthorized)
    );
    assert_eq!(
        hybrid_auth_middleware(&state(AuthMode::Credentials, Some("t")), Some("Bearer t")),
        Ok(())
    );
    assert_eq!(
        hybrid_auth_middleware(&state(AuthMode::Bearer, None), Some("Bearer t")),
        Err(AuthError::Internal)
    );
    assert_eq!(
        hybrid_auth_middleware(&state(AuthMode::Bearer, Some("t")), Some("Token t")),
        Err(AuthError::Unauthorized)
    );
}

#[test]
fn refusals_have_their_status_codes() {
    assert_eq!(AuthError::Unauthorized.status_code(), 401);
    assert_eq!(AuthError::Forbidden.status_code(), 403);
    assert_eq!(AuthError::Internal.status_code(), 500);
}
