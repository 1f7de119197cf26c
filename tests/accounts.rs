use std::time::Duration;
use rankit::account::{
    authorize_admin, authorize_root, generate_verification_token, skip_bearer, update_role,
    verification_token_from_bytes, Claims, Role, RoleLesser, UpdateRoleRequest,
};
use rankit::error::AppError;

fn claims(role: Role) -> Claims {
    Claims::with_expiry(1, "ann".to_string(), "ann@example.com".to_string(), role, 100, 50)
}

#[test]
fn skip_bearer_strips_scheme_and_whitespace() {
    assert_eq!(skip_bearer("Bearer abc.def"), Ok("abc.def"));
    assert_eq!(skip_bearer("Bearer   tok \t"), Ok("tok"));
    assert_eq!(skip_bearer("Bearer "), Ok(""));
}

#[test]
fn skip_bearer_rejects_other_schemes() {
    assert_eq!(skip_bearer("Basic abc"), Err(AppError::Unauthenticated));
    assert_eq!(skip_bearer("bearer abc"), Err(AppError::Unauthenticated));
    assert_eq!(skip_bearer("Bearer"), Err(AppError::Unauthenticated));
    assert_eq!(skip_bearer(""), Err(AppError::Unauthenticated));
}

#[test]
fn authorization_by_role() {
    assert_eq!(authorize_admin(&claims(Role::Admin)), Ok(()));
    assert_eq!(authorize_admin(&claims(Role::Root)), Ok(()));
    assert_eq!(authorize_admin(&claims(Role::Basic)), Err(AppError::Unauthorized));
    assert_eq!(authorize_root(&claims(Role::Root)), Ok(()));
    assert_eq!(authorize_root(&claims(Role::Admin)), Err(AppError::Unauthorized));
}

#[test]
fn root_role_cannot_change() {
    let req = UpdateRoleRequest { account_id: 3, role: RoleLesser::Admin };
    assert_eq!(update_role(Role::Root, &req), Err(AppError::CannotModifyRootAccountRole));
    assert_eq!(update_role(Role::Basic, &req), Ok(Role::Admin));
    let req = UpdateRoleRequest { account_id: 3, role: RoleLesser::Basic };
    assert_eq!(update_role(Role::Admin, &req), Ok(Role::Basic));
}

#[test]
fn claims_expiry() {
    let c = claims(Role::Basic);
    assert_eq!((c.exp, c.id, c.name.as_str(), c.role), (150, 1, "ann", Role::Basic));
    let c = Claims::with_expiry(1, String::new(), String::new(), Role::Basic, i64::MAX - 5, 10);
    assert_eq!(c.exp, i64::MAX);
    let c = Claims::with_expiry(1, String::new(), String::new(), Role::Basic, -10, u64::MAX);
    assert_eq!(c.exp, i64::MAX);
    let c = Claims::with_expiry(1, String::new(), String::new(), Role::Basic, -10, 4);
    assert_eq!(c.exp, -6);
}

#[test]
fn claims_new_expires_after_now() {
    let c = Claims::new(2, "bo".to_string(), "b@x.org".to_string(), Role::Admin, Duration::from_secs(3600));
    assert!(c.exp > 1_600_000_000 + 3600);
    assert_eq!((c.id, c.role), (2, Role::Admin));
}

#[test]
fn verification_token_digits_from_bytes() {
    let digits: String = verification_token_from_bytes([0, 9, 10, 23, 255, 101]).into_iter().collect();
    assert_eq!(digits, "090351");
}

#[test]
fn verification_token_is_six_digits() {
    let t = generate_verification_token();
    assert_eq!(t.len(), 6);
    assert!(t.chars().all(|c| c.is_ascii_digit()));
}

#[test]
fn lesser_role_maps_to_role() {
    assert_eq!(RoleLesser::Basic.to_role(), Role::Basic);
    assert_eq!(RoleLesser::Admin.to_role(), Role::Admin);
}
