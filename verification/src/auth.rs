//! Request authentication: who may call the control surface, and with what role.
//!
//! The functions here decide; they do not talk to the network. A caller hands
//! them the configured mode, the expected bearer token, the logged-in operator
//! of the session (if any) and the text of the `Authorization` header (if any),
//! and gets back either leave to go on or the status with which to refuse.

use vstd::prelude::*;
use vstd::slice::slice_subrange;
use vstd::string::StringSliceAdditionalSpecFns;
use vstd::utf8::encode_utf8;

use crate::clock::now_micros;

verus! {

/// How callers of the control surface prove who they are.
#[derive(Clone, Copy, Debug, PartialEq, Eq, Structural)]
pub enum AuthMode {
    /// Authentication is switched off: every request is let through.
    Disabled,
    /// A shared bearer token, for command-line clients and detectors.
    Bearer,
    /// Operators log in and carry a session.
    Credentials,
    /// Client certificates, checked by the transport before a request arrives.
    Mtls,
}

/// What an operator is allowed to do. Each role includes the ones below it.
#[derive(Clone, Copy, Debug, PartialEq, Eq, Structural)]
pub enum OperatorRole {
    /// Manages operators and the safelist, besides everything an operator may do.
    Admin,
    /// Views and withdraws mitigations.
    Operator,
    /// Views only.
    Viewer,
}

/// The status with which a request is refused.
#[derive(Clone, Copy, Debug, PartialEq, Eq, Structural)]
pub enum AuthError {
    /// The caller did not prove who they are (HTTP 401).
    Unauthorized,
    /// The caller is known but their role does not reach (HTTP 403).
    Forbidden,
    /// Bearer authentication is configured but no token was loaded (HTTP 500).
    Internal,
}

/// An operator account, or a stand-in for a caller admitted without one.
#[derive(Debug)]
pub struct Operator {
    /// 128-bit identifier; zero for stand-ins.
    pub operator_id: u128,
    pub username: String,
    pub password_hash: String,
    pub role: OperatorRole,
    /// Microseconds since the Unix epoch.
    pub created_at: i64,
    pub created_by: Option<String>,
    /// Microseconds since the Unix epoch.
    pub last_login_at: Option<i64>,
}

/// The mathematical content of an [`Operator`].
pub struct OperatorView {
    pub operator_id: u128,
    pub username: Seq<char>,
    pub password_hash: Seq<char>,
    pub role: OperatorRole,
    pub created_at: i64,
    pub created_by: Option<Seq<char>>,
    pub last_login_at: Option<i64>,
}

/// The part of the server's state that authentication reads.
#[derive(Debug)]
pub struct AuthState {
    pub mode: AuthMode,
    /// The bearer token loaded at startup, if one was.
    pub bearer_token: Option<String>,
}

/// The session that came with a request.
#[derive(Debug)]
pub struct AuthSession {
    /// The operator who logged in on this session, if anyone did.
    pub user: Option<Operator>,
}

/// The rank of a role: a higher rank includes every lower one.
pub open spec fn role_rank(role: OperatorRole) -> nat {
    match role {
        OperatorRole::Admin => 2,
        OperatorRole::Operator => 1,
        OperatorRole::Viewer => 0,
    }
}

/// Whether a caller holding `held` may do what asks for `required`.
pub open spec fn role_permits(held: OperatorRole, required: OperatorRole) -> bool {
    role_rank(held) >= role_rank(required)
}

/// The seven bytes `Bearer ` that open a bearer `Authorization` header.
pub open spec fn bearer_prefix() -> Seq<u8> {
    seq![66u8, 101u8, 97u8, 114u8, 101u8, 114u8, 32u8]
}

/// Whether a header value opens with `Bearer `.
pub open spec fn is_bearer_header(header: Seq<u8>) -> bool {
    header.len() >= 7 && header.subrange(0, 7) == bearer_prefix()
}

/// The token that a bearer header carries: everything after `Bearer `.
pub open spec fn bearer_token_of(header: Seq<u8>) -> Seq<u8>
    recommends
        is_bearer_header(header),
{
    header.subrange(7, header.len() as int)
}

/// Whether the header, if there is one, is a bearer header carrying exactly
/// the expected token, if there is one.
pub open spec fn presents_token(header: Option<Seq<u8>>, expected: Option<Seq<u8>>) -> bool {
    &&& header is Some
    &&& expected is Some
    &&& is_bearer_header(header->0)
    &&& bearer_token_of(header->0) == expected->0
}

/// The UTF-8 bytes of an optional text.
pub open spec fn opt_bytes(text: Option<Seq<char>>) -> Option<Seq<u8>> {
    match text {
        Some(t) => Some(encode_utf8(t)),
        None => None,
    }
}

/// Whether a request may go on, by mode, session and bearer token.
pub open spec fn auth_decision(
    mode: AuthMode,
    has_session: bool,
    header: Option<Seq<u8>>,
    expected: Option<Seq<u8>>,
) -> Result<(), AuthError> {
    match mode {
        AuthMode::Disabled => Ok(()),
        AuthMode::Mtls => Ok(()),
        AuthMode::Credentials => if has_session {
            Ok(())
        } else {
            Err(AuthError::Unauthorized)
        },
        AuthMode::Bearer => if has_session || presents_token(header, expected) {
            Ok(())
        } else {
            Err(AuthError::Unauthorized)
        },
    }
}

/// The stand-in operator for a caller admitted without an account.
pub open spec fn stand_in(name: Seq<char>, role: OperatorRole, now: i64) -> OperatorView {
    OperatorView {
        operator_id: 0,
        username: name,
        password_hash: Seq::empty(),
        role,
        created_at: now,
        created_by: None,
        last_login_at: None,
    }
}

/// As whom a request acts when it asks for `required`, or why it is refused.
pub open spec fn role_decision(
    mode: AuthMode,
    session_user: Option<OperatorView>,
    header: Option<Seq<u8>>,
    expected: Option<Seq<u8>>,
    required: OperatorRole,
    now: i64,
) -> Result<OperatorView, AuthError> {
    if mode == AuthMode::Disabled {
        Ok(stand_in("anonymous"@, OperatorRole::Admin, now))
    } else if mode == AuthMode::Mtls {
        Ok(stand_in("mtls-client"@, OperatorRole::Admin, now))
    } else if session_user is Some {
        if role_permits(session_user->0.role, required) {
            Ok(session_user->0)
        } else {
            Err(AuthError::Forbidden)
        }
    } else if presents_token(header, expected) {
        if role_permits(OperatorRole::Operator, required) {
            Ok(stand_in("bearer-token"@, OperatorRole::Operator, now))
        } else {
            Err(AuthError::Forbidden)
        }
    } else {
        Err(AuthError::Unauthorized)
    }
}

/// What the bearer check says of a request: the token must have been loaded,
/// and the header must be a bearer header carrying it.
pub open spec fn bearer_check(header: Option<Seq<u8>>, expected: Option<Seq<u8>>) -> Result<
    (),
    AuthError,
> {
    if expected is None {
        Err(AuthError::Internal)
    } else if presents_token(header, expected) {
        Ok(())
    } else {
        Err(AuthError::Unauthorized)
    }
}

/// What the bearer-only middleware does with a request.
pub open spec fn middleware_decision(
    mode: AuthMode,
    header: Option<Seq<u8>>,
    expected: Option<Seq<u8>>,
) -> Result<(), AuthError> {
    match mode {
        AuthMode::Disabled => Ok(()),
        AuthMode::Mtls => Ok(()),
        AuthMode::Credentials => Err(AuthError::Unauthorized),
        AuthMode::Bearer => bearer_check(header, expected),
    }
}

/// What the middleware of the API routes does with a request.
pub open spec fn hybrid_decision(
    mode: AuthMode,
    header: Option<Seq<u8>>,
    expected: Option<Seq<u8>>,
) -> Result<(), AuthError> {
    if mode == AuthMode::Disabled {
        Ok(())
    } else if header is Some && is_bearer_header(header->0) {
        bearer_check(header, expected)
    } else {
        Err(AuthError::Unauthorized)
    }
}

/// What a result that carries an operator says, with the operator as its view.
pub open spec fn operator_result_view(r: Result<Operator, AuthError>) -> Result<
    OperatorView,
    AuthError,
> {
    match r {
        Ok(op) => Ok(op@),
        Err(e) => Err(e),
    }
}

impl View for Operator {
    type V = OperatorView;

    open spec fn view(&self) -> OperatorView {
        OperatorView {
            operator_id: self.operator_id,
            username: self.username@,
            password_hash: self.password_hash@,
            role: self.role,
            created_at: self.created_at,
            created_by: match self.created_by {
                Some(s) => Some(s@),
                None => None,
            },
            last_login_at: self.last_login_at,
        }
    }
}

impl Clone for Operator {
    fn clone(&self) -> (copy: Self)
        ensures
            copy@ == self@,
    {
        Operator {
            operator_id: self.operator_id,
            username: self.username.clone(),
            password_hash: self.password_hash.clone(),
            role: self.role,
            created_at: self.created_at,
            created_by: match &self.created_by {
                Some(s) => Some(s.clone()),
                None => None,
            },
            last_login_at: self.last_login_at,
        }
    }
}

impl AuthError {
    /// The HTTP status code that stands for this refusal.
    pub fn status_code(&self) -> (code: u16)
        ensures
            code == match *self {
                AuthError::Unauthorized => 401u16,
                AuthError::Forbidden => 403u16,
                AuthError::Internal => 500u16,
            },
    {
        match self {
            AuthError::Unauthorized => 401,
            AuthError::Forbidden => 403,
            AuthError::Internal => 500,
        }
    }
}

impl OperatorRole {
    /// Whether this role may do what asks for `required`.
    pub fn has_permission(&self, required: &OperatorRole) -> (allowed: bool)
        ensures
            allowed == role_permits(*self, *required),
    {
        match (self, required) {
            (OperatorRole::Admin, _) => true,
            (OperatorRole::Operator, OperatorRole::Admin) => false,
            (OperatorRole::Operator, _) => true,
            (OperatorRole::Viewer, OperatorRole::Viewer) => true,
            (OperatorRole::Viewer, _) => false,
        }
    }
}

impl AuthState {
    /// The bytes of the expected token, as the decisions read them.
    pub open spec fn expected(&self) -> Option<Seq<u8>> {
        match self.bearer_token {
            Some(t) => Some(encode_utf8(t@)),
            None => None,
        }
    }
}

impl AuthSession {
    /// The logged-in operator, as the decisions read them.
    pub open spec fn user_view(&self) -> Option<OperatorView> {
        match self.user {
            Some(op) => Some(op@),
            None => None,
        }
    }
}

/// Compares two byte strings without leaving early on the first difference.
///
/// Every pair of bytes is folded into one accumulator, so the time taken
/// depends on the lengths only.
pub fn constant_time_eq(a: &[u8], b: &[u8]) -> (same: bool)
    ensures
        same == (a@ == b@),
{
    if a.len() != b.len() {
        return false;
    }
    let mut acc: u8 = 0;
    let mut i: usize = 0;
    while i < a.len()
        invariant
            a.len() == b.len(),
            i <= a.len(),
            acc == 0 <==> a@.subrange(0, i as int) =~= b@.subrange(0, i as int),
        decreases a.len() - i,
    {
        let x: u8 = a[i];
        let y: u8 = b[i];
        assert(((acc | (x ^ y)) == 0) <==> (acc == 0 && x == y)) by (bit_vector);
        proof {
            let pa = a@.subrange(0, i as int);
            let pb = b@.subrange(0, i as int);
            let qa = a@.subrange(0, i + 1);
            let qb = b@.subrange(0, i + 1);
            assert(pa == qa.subrange(0, i as int));
            assert(pb == qb.subrange(0, i as int));
            assert(qa[i as int] == x && qb[i as int] == y);
            if pa == pb && x == y {
                assert(qa =~= qb);
            }
        }
        acc = acc | (x ^ y);
        i = i + 1;
    }
    assert(a@.subrange(0, i as int) == a@);
    assert(b@.subrange(0, i as int) == b@);
    acc == 0
}

/// Whether a header value opens with `Bearer `.
pub fn has_bearer_prefix(header: &[u8]) -> (yes: bool)
    ensures
        yes == is_bearer_header(header@),
{
    if header.len() < 7 {
        return false;
    }
    let yes = header[0] == 66 && header[1] == 101 && header[2] == 97 && header[3] == 114
        && header[4] == 101 && header[5] == 114 && header[6] == 32;
    proof {
        let head = header@.subrange(0, 7);
        if yes {
            assert(head =~= bearer_prefix());
        } else {
            assert(head[0] == header@[0] && head[1] == header@[1] && head[2] == header@[2]
                && head[3] == header@[3] && head[4] == header@[4] && head[5] == header@[5]
                && head[6] == header@[6]);
        }
    }
    yes
}

/// Whether the request carries the expected bearer token. The token itself is
/// compared in constant time.
pub fn token_presented(auth_header: Option<&str>, bearer_token: &Option<String>) -> (yes: bool)
    ensures
        yes == presents_token(
            opt_bytes(
                match auth_header {
                    Some(h) => Some(h@),
                    None => None,
                },
            ),
            opt_bytes(
                match *bearer_token {
                    Some(t) => Some(t@),
                    None => None,
                },
            ),
        ),
{
    match (auth_header, bearer_token) {
        (Some(header), Some(expected)) => {
            let bytes = header.as_bytes();
            if has_bearer_prefix(bytes) {
                let provided = slice_subrange(bytes, 7, bytes.len());
                constant_time_eq(provided, expected.as_str().as_bytes())
            } else {
                false
            }
        },
        _ => false,
    }
}

/// The bytes of an optional header value.
pub open spec fn header_bytes(auth_header: Option<&str>) -> Option<Seq<u8>> {
    match auth_header {
        Some(h) => Some(encode_utf8(h@)),
        None => None,
    }
}

/// Decides whether a request is authenticated, by session or by bearer token.
///
/// With authentication switched off, or with client certificates, every
/// request passes. In credentials mode only a session counts; in bearer mode a
/// session or the right token does.
pub fn require_auth(state: &AuthState, auth_session: &AuthSession, auth_header: Option<&str>) -> (r:
    Result<(), AuthError>)
    ensures
        r == auth_decision(
            state.mode,
            auth_session.user is Some,
            header_bytes(auth_header),
            state.expected(),
        ),
{
    match state.mode {
        AuthMode::Disabled => {
            return Ok(());
        },
        AuthMode::Mtls => {
            return Ok(());
        },
        _ => {},
    }
    if auth_session.user.is_some() {
        return Ok(());
    }
    match state.mode {
        AuthMode::Credentials => {
            return Err(AuthError::Unauthorized);
        },
        _ => {},
    }
    if token_presented(auth_header, &state.bearer_token) {
        Ok(())
    } else {
        Err(AuthError::Unauthorized)
    }
}

/// The all-zero identifier, from `uuid::Uuid::nil` read as a 128-bit number
/// with `Uuid::as_u128`: sixteen zero bytes, so the number zero.
#[verifier::external_body]
fn nil_id() -> (id: u128)
    ensures
        id == 0,
{
    uuid::Uuid::nil().as_u128()
}

/// Builds the stand-in operator for a caller admitted without an account.
fn make_stand_in(name: &str, role: OperatorRole, now: i64) -> (op: Operator)
    ensures
        op@ == stand_in(name@, role, now),
{
    Operator {
        operator_id: nil_id(),
        username: name.to_owned(),
        password_hash: String::new(),
        role,
        created_at: now,
        created_by: None,
        last_login_at: None,
    }
}

/// Decides as whom a request acts when it asks for `required_role`, at the
/// instant `now`.
///
/// With authentication switched off, or with client certificates, the caller
/// acts as an administrator stand-in. A session's operator is checked against
/// the role. The right bearer token gives an operator stand-in, which is
/// checked against the role too. Stand-ins are stamped with `now`.
pub fn require_role_at(
    state: &AuthState,
    auth_session: &AuthSession,
    auth_header: Option<&str>,
    required_role: OperatorRole,
    now: i64,
) -> (r: Result<Operator, AuthError>)
    ensures
        operator_result_view(r) == role_decision(
            state.mode,
            auth_session.user_view(),
            header_bytes(auth_header),
            state.expected(),
            required_role,
            now,
        ),
{
    match state.mode {
        AuthMode::Disabled => {
            return Ok(make_stand_in("anonymous", OperatorRole::Admin, now));
        },
        AuthMode::Mtls => {
            return Ok(make_stand_in("mtls-client", OperatorRole::Admin, now));
        },
        _ => {},
    }
    match &auth_session.user {
        Some(operator) => {
            if operator.role.has_permission(&required_role) {
                return Ok(operator.clone());
            } else {
                return Err(AuthError::Forbidden);
            }
        },
        None => {},
    }
    if token_presented(auth_header, &state.bearer_token) {
        let bearer_role = OperatorRole::Operator;
        if bearer_role.has_permission(&required_role) {
            Ok(make_stand_in("bearer-token", bearer_role, now))
        } else {
            Err(AuthError::Forbidden)
        }
    } else {
        Err(AuthError::Unauthorized)
    }
}

/// Decides as whom a request acts when it asks for `required_role`.
///
/// Reads the clock once and decides as [`require_role_at`] does at that
/// instant; only the stamp of a stand-in depends on it.
pub fn require_role(
    state: &AuthState,
    auth_session: &AuthSession,
    auth_header: Option<&str>,
    required_role: OperatorRole,
) -> (r: Result<Operator, AuthError>)
    ensures
        exists|now: i64|
            operator_result_view(r) == #[trigger] role_decision(
                state.mode,
                auth_session.user_view(),
                header_bytes(auth_header),
                state.expected(),
                required_role,
                now,
            ),
{
    let now = now_micros();
    require_role_at(state, auth_session, auth_header, required_role, now)
}

/// Checks the bearer token of a request against the one loaded at startup.
pub fn validate_bearer_token(state: &AuthState, auth_header: Option<&str>) -> (r: Result<
    (),
    AuthError,
>)
    ensures
        r == bearer_check(header_bytes(auth_header), state.expected()),
{
    if state.bearer_token.is_none() {
        return Err(AuthError::Internal);
    }
    if token_presented(auth_header, &state.bearer_token) {
        Ok(())
    } else {
        Err(AuthError::Unauthorized)
    }
}

/// The bearer-only middleware: `Ok` lets the request through to the next
/// handler, `Err` answers it with that status.
pub fn auth_middleware(state: &AuthState, auth_header: Option<&str>) -> (r: Result<(), AuthError>)
    ensures
        r == middleware_decision(state.mode, header_bytes(auth_header), state.expected()),
{
    match state.mode {
        AuthMode::Disabled => Ok(()),
        AuthMode::Bearer => validate_bearer_token(state, auth_header),
        AuthMode::Credentials => Err(AuthError::Unauthorized),
        AuthMode::Mtls => Ok(()),
    }
}

/// The middleware of the API routes: a bearer header is checked whatever the
/// mode, and without one only a server with authentication switched off lets
/// the request through.
pub fn hybrid_auth_middleware(state: &AuthState, auth_header: Option<&str>) -> (r: Result<
    (),
    AuthError,
>)
    ensures
        r == hybrid_decision(state.mode, header_bytes(auth_header), state.expected()),
{
    match state.mode {
        AuthMode::Disabled => {
            return Ok(());
        },
        _ => {},
    }
    match auth_header {
        Some(header) => {
            if has_bearer_prefix(header.as_bytes()) {
                return validate_bearer_token(state, auth_header);
            }
        },
        None => {},
    }
    Err(AuthError::Unauthorized)
}

} // verus!
