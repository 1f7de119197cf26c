use std::time::Duration;
use vstd::prelude::*;
use crate::error::AppError;

verus! {

/// Role of an account, determining its privileges.
#[derive(Clone, Copy, PartialEq, Eq, Structural, Debug)]
pub enum Role {
    Basic,
    Admin,
    Root,
}

/// Same meaning as [`Role`], without [`Role::Root`]: the roles that an
/// administrator may grant.
#[derive(Clone, Copy, PartialEq, Eq, Structural, Debug)]
pub enum RoleLesser {
    Basic,
    Admin,
}

pub open spec fn lesser_to_role(r: RoleLesser) -> Role {
    match r {
        RoleLesser::Basic => Role::Basic,
        RoleLesser::Admin => Role::Admin,
    }
}

impl RoleLesser {
    pub fn to_role(self) -> (r: Role)
        ensures
            r == lesser_to_role(self),
    {
        match self {
            RoleLesser::Basic => Role::Basic,
            RoleLesser::Admin => Role::Admin,
        }
    }
}

/// Request payload to update the [`Role`] of an account.
#[derive(Clone, Copy, PartialEq, Eq, Structural, Debug)]
pub struct UpdateRoleRequest {
    pub account_id: i32,
    pub role: RoleLesser,
}

/// Request to create a new account.
#[derive(Clone, PartialEq, Eq, Debug)]
pub struct CreateAccountRequest {
    pub name: String,
    pub email: String,
    pub password: String,
}

/// Response to a [`CreateAccountRequest`].
#[derive(Clone, PartialEq, Eq, Debug)]
pub struct CreateAccountResponse {
    pub id: i32,
    pub name: String,
    pub email: String,
}

/// Request to log in to an existing account.
#[derive(Clone, PartialEq, Eq, Debug)]
pub struct LoginRequest {
    pub name: Option<String>,
    pub email: Option<String>,
    pub password: String,
}

/// Account information carried by an authentication token.
#[derive(Clone, Debug)]
pub struct Claims {
    /// Expiration time in UTC seconds since the epoch.
    pub exp: i64,
    /// Account id.
    pub id: i32,
    /// Account name.
    pub name: String,
    /// Account email.
    pub email: String,
    /// Account role.
    pub role: Role,
}

/// Expiry `secs` seconds after `now`, capped at the largest timestamp.
pub open spec fn expiry(now: i64, secs: u64) -> i64 {
    if now + secs > i64::MAX {
        i64::MAX
    } else {
        (now + secs) as i64
    }
}

/// Relies on chrono::Utc::now and DateTime::timestamp: the current time in
/// whole seconds since the epoch.
#[verifier::external_body]
fn now_timestamp() -> (r: i64) {
    chrono::Utc::now().timestamp()
}

/// Relies on Duration::as_secs: the whole seconds of a duration.
#[verifier::external_body]
fn duration_secs(d: &Duration) -> (r: u64) {
    d.as_secs()
}

impl Claims {
    /// Claims that expire `exp_secs` seconds after time `now`.
    pub fn with_expiry(id: i32, name: String, email: String, role: Role, now: i64, exp_secs: u64) -> (r: Claims)
        ensures
            r.exp == expiry(now, exp_secs),
            r.id == id,
            r.name == name,
            r.email == email,
            r.role == role,
    {
        let sum: i128 = now as i128 + exp_secs as i128;
        let exp = if sum > i64::MAX as i128 {
            i64::MAX
        } else {
            sum as i64
        };
        Claims { exp, id, name, email, role }
    }

    /// Claims that expire `exp_duration` from now.
    pub fn new(id: i32, name: String, email: String, role: Role, exp_duration: Duration) -> (r: Claims)
        ensures
            r.id == id,
            r.name == name,
            r.email == email,
            r.role == role,
    {
        let now = now_timestamp();
        let secs = duration_secs(&exp_duration);
        Claims::with_expiry(id, name, email, role, now, secs)
    }
}

/// Admits administrators and the root account.
pub fn authorize_admin(claims: &Claims) -> (r: Result<(), AppError>)
    ensures
        r is Ok <==> claims.role == Role::Admin || claims.role == Role::Root,
        r is Err ==> r == Err::<(), AppError>(AppError::Unauthorized),
{
    match claims.role {
        Role::Admin | Role::Root => Ok(()),
        Role::Basic => Err(AppError::Unauthorized),
    }
}

/// Admits the root account only.
pub fn authorize_root(claims: &Claims) -> (r: Result<(), AppError>)
    ensures
        r is Ok <==> claims.role == Role::Root,
        r is Err ==> r == Err::<(), AppError>(AppError::Unauthorized),
{
    match claims.role {
        Role::Root => Ok(()),
        _ => Err(AppError::Unauthorized),
    }
}

/// The role that an account whose role is `current` gets from `request`;
/// the root account's role never changes.
pub fn update_role(current: Role, request: &UpdateRoleRequest) -> (r: Result<Role, AppError>)
    ensures
        current == Role::Root ==> r == Err::<Role, AppError>(AppError::CannotModifyRootAccountRole),
        current != Role::Root ==> r == Ok::<Role, AppError>(lesser_to_role(request.role)),
{
    match current {
        Role::Root => Err(AppError::CannotModifyRootAccountRole),
        _ => Ok(request.role.to_role()),
    }
}

/// What `str::trim` returns: `s` without leading and trailing whitespace.
pub uninterp spec fn trimmed(s: Seq<char>) -> Seq<char>;

/// Relies on str::strip_prefix: the rest of `s` after `prefix`, when `s`
/// starts with it.
#[verifier::external_body]
fn strip_prefix(s: &str, prefix: String) -> (r: Option<&str>)
    ensures
        r is Some == (prefix@.len() <= s@.len() && s@.take(prefix@.len() as int) == prefix@),
        r matches Some(t) ==> t@ == s@.skip(prefix@.len() as int),
{
    s.strip_prefix(prefix.as_str())
}

/// Relies on str::trim: `s` without leading and trailing whitespace.
#[verifier::external_body]
fn trim(s: &str) -> (r: &str)
    ensures
        r@ == trimmed(s@),
{
    s.trim()
}

/// The characters of the scheme that opens a bearer authorization header.
pub open spec fn bearer() -> Seq<char> {
    seq!['B', 'e', 'a', 'r', 'e', 'r', ' ']
}

/// The token of a bearer authorization header: what follows `"Bearer "`,
/// trimmed.
pub fn skip_bearer(auth_token: &str) -> (r: Result<&str, AppError>)
    ensures
        r is Ok <==> bearer().len() <= auth_token@.len() && auth_token@.take(7) == bearer(),
        r is Err ==> r == Err::<&str, AppError>(AppError::Unauthenticated),
        r matches Ok(t) ==> t@ == trimmed(auth_token@.skip(7)),
{
    proof {
        reveal_strlit("Bearer ");
        assert("Bearer "@ =~= bearer());
    }
    match strip_prefix(auth_token, "Bearer ".to_owned()) {
        None => Err(AppError::Unauthenticated),
        Some(rest) => Ok(trim(rest)),
    }
}

/// Character of decimal digit `d`.
pub open spec fn digit_char(d: u8) -> char {
    (48 + d) as char
}

/// The verification code spelled by `bytes`: one decimal digit per byte,
/// the byte modulo ten.
pub fn verification_token_from_bytes(bytes: [u8; 6]) -> (r: Vec<char>)
    ensures
        r@.len() == 6,
        forall|i: int| 0 <= i < 6 ==> #[trigger] r@[i] == digit_char((bytes@[i] % 10) as u8),
{
    let mut r: Vec<char> = Vec::new();
    let mut i: usize = 0;
    while i < 6
        invariant
            i <= 6,
            r@.len() == i,
            forall|j: int| 0 <= j < i ==> #[trigger] r@[j] == digit_char((bytes@[j] % 10) as u8),
        decreases 6 - i,
    {
        let d = bytes[i] % 10;
        r.push((48u8 + d) as char);
        i = i + 1;
    }
    r
}

/// Relies on rand::random: six bytes from the thread-local generator.
#[verifier::external_body]
fn random_bytes() -> (r: [u8; 6]) {
    rand::random::<[u8; 6]>()
}

/// Relies on String's FromIterator: the characters of `v` as a string.
#[verifier::external_body]
fn collect_string(v: &Vec<char>) -> (r: String)
    ensures
        r@ == v@,
{
    v.iter().collect()
}

/// A fresh six-digit verification code.
pub fn generate_verification_token() -> (r: String)
    ensures
        r@.len() == 6,
        forall|i: int| 0 <= i < 6 ==> '0' <= #[trigger] r@[i] <= '9',
{
    let bytes = random_bytes();
    let digits = verification_token_from_bytes(bytes);
    proof {
        assert forall|i: int| 0 <= i < 6 implies '0' <= #[trigger] digits@[i] <= '9' by {
            assert(digits@[i] == digit_char((bytes@[i] % 10) as u8));
        }
    }
    collect_string(&digits)
}

} // verus!
