//! What the web endpoints decide: registration checks, login, cookie
//! authentication, ending sessions and starting batches. The endpoints
//! themselves only carry requests in and replies out.

use vstd::prelude::*;

use crate::batch::{BatchManager, after_sends, sends_prefix};
use crate::capture::CaptureState;
use crate::bindings::{bcrypt_accepts, bcrypt_hash_ok, bcrypt_hash, bcrypt_verify, parse_i32, parsed_i32};
use crate::client::{
    CreateBatchReq, CreateBatchResp, CreateSessionResp, CreateUserReq, CreateUserResp,
    DeleteSessionResp,
};
use crate::models::{DbUser, InsUser};
use crate::session::{SessionManager, is_session, with_token, without_user};

verus! {

/// A password could not be hashed or checked.
#[derive(Clone, Copy, Debug, PartialEq, Eq, Structural)]
pub enum PasswordError {
    Failed,
}

/// The rejection of a registration, if any, decided before storage is
/// touched: an empty name first, then an empty password.
pub fn check_new_user(req: &CreateUserReq) -> (r: Option<CreateUserResp>)
    ensures
        r == (if req.name@.len() == 0 {
            Some(CreateUserResp::InvalidUsername)
        } else if req.password@.len() == 0 {
            Some(CreateUserResp::InvalidPassword)
        } else {
            None
        }),
{
    if req.name.as_str().is_empty() {
        Some(CreateUserResp::InvalidUsername)
    } else if req.password.as_str().is_empty() {
        Some(CreateUserResp::InvalidPassword)
    } else {
        None
    }
}

/// A salted bcrypt hash of `password` at the default cost.
pub fn hash_password(password: &str) -> (r: Result<String, PasswordError>)
    ensures
        r matches Err(e) ==> e == PasswordError::Failed,
{
    match bcrypt_hash(password) {
        Ok(h) => Ok(h),
        Err(_) => Err(PasswordError::Failed),
    }
}

/// The record to insert for a registration whose password hashed to `passhash`.
pub fn new_user(req: &CreateUserReq, passhash: String) -> (r: InsUser)
    ensures
        r.name@ == req.name@,
        r.passhash@ == passhash@,
{
    InsUser { name: req.name.clone(), passhash }
}

/// What storage answered to the insertion of one user.
#[derive(Clone, Copy, Debug, PartialEq, Eq, Structural)]
pub enum InsertOutcome {
    /// The insertion went through and touched this many rows.
    Inserted { rows: usize },
    /// The name is taken.
    UniqueViolation,
    /// Any other failure of storage.
    Failed,
}

/// The reply to a registration once storage answered: one row inserted is a
/// success, a taken name is reported as such, anything else is unexpected.
pub fn create_user_response(outcome: InsertOutcome) -> (r: CreateUserResp)
    ensures
        r == (match outcome {
            InsertOutcome::Inserted { rows } => if rows == 1 {
                CreateUserResp::Success
            } else {
                CreateUserResp::UnexpectedError
            },
            InsertOutcome::UniqueViolation => CreateUserResp::UnavailableUsername,
            InsertOutcome::Failed => CreateUserResp::UnexpectedError,
        }),
{
    match outcome {
        InsertOutcome::Inserted { rows } => if rows == 1 {
            CreateUserResp::Success
        } else {
            CreateUserResp::UnexpectedError
        },
        InsertOutcome::UniqueViolation => CreateUserResp::UnavailableUsername,
        InsertOutcome::Failed => CreateUserResp::UnexpectedError,
    }
}

/// The HTTP status of a registration reply.
pub fn create_user_status(resp: CreateUserResp) -> (r: u16)
    ensures
        r == (match resp {
            CreateUserResp::Success => 201u16,
            CreateUserResp::UnavailableUsername => 409u16,
            CreateUserResp::InvalidUsername => 400u16,
            CreateUserResp::InvalidPassword => 400u16,
            CreateUserResp::UnexpectedError => 500u16,
        }),
{
    match resp {
        CreateUserResp::Success => 201,
        CreateUserResp::UnavailableUsername => 409,
        CreateUserResp::InvalidUsername => 400,
        CreateUserResp::InvalidPassword => 400,
        CreateUserResp::UnexpectedError => 500,
    }
}

/// Whether `password` matches the stored bcrypt `hash`.
pub fn check_password(password: &str, hash: &str) -> (r: Result<bool, PasswordError>)
    ensures
        r is Ok <==> bcrypt_hash_ok(hash@),
        r matches Ok(b) ==> b == bcrypt_accepts(password@, hash@),
        r matches Err(e) ==> e == PasswordError::Failed,
{
    match bcrypt_verify(password, hash) {
        Ok(b) => Ok(b),
        Err(_) => Err(PasswordError::Failed),
    }
}

/// The reply to a login once the password was checked.
pub fn login_response(check: Result<bool, PasswordError>) -> (r: CreateSessionResp)
    ensures
        r == (match check {
            Ok(true) => CreateSessionResp::Success,
            Ok(false) => CreateSessionResp::InvalidCredentials,
            Err(_) => CreateSessionResp::UnexpectedError,
        }),
{
    match check {
        Ok(true) => CreateSessionResp::Success,
        Ok(false) => CreateSessionResp::InvalidCredentials,
        Err(_) => CreateSessionResp::UnexpectedError,
    }
}

/// The HTTP status of a login reply.
pub fn create_session_status(resp: CreateSessionResp) -> (r: u16)
    ensures
        r == (match resp {
            CreateSessionResp::Success => 201u16,
            CreateSessionResp::InvalidCredentials => 403u16,
            CreateSessionResp::UnexpectedError => 500u16,
        }),
{
    match resp {
        CreateSessionResp::Success => 201,
        CreateSessionResp::InvalidCredentials => 403,
        CreateSessionResp::UnexpectedError => 500,
    }
}

/// Logs `user`, found by name, in with `password`: on a match a session is
/// opened and its token returned beside the reply; otherwise no session is
/// opened.
pub fn open_session(sessions: &mut SessionManager, password: &str, user: &DbUser) -> (r: (
    CreateSessionResp,
    Option<String>,
))
    ensures
        r.0 == (if !bcrypt_hash_ok(user.passhash@) {
            CreateSessionResp::UnexpectedError
        } else if bcrypt_accepts(password@, user.passhash@) {
            CreateSessionResp::Success
        } else {
            CreateSessionResp::InvalidCredentials
        }),
        r.0 == CreateSessionResp::Success <==> r.1 is Some,
        r.1 matches Some(t) ==> final(sessions)@ == with_token(old(sessions)@, user.id, t@),
        r.1 is None ==> final(sessions)@ == old(sessions)@,
{
    let resp = login_response(check_password(password, user.passhash.as_str()));
    match resp {
        CreateSessionResp::Success => {
            let token = sessions.create(user);
            (resp, Some(token))
        },
        _ => (resp, None),
    }
}

/// The user that the cookies prove against the sessions `m`, as
/// `authenticate` decides it.
pub open spec fn authenticate_spec(
    m: Map<Seq<char>, i32>,
    user_cookie: Option<&str>,
    session_cookie: Option<&str>,
) -> Option<i32> {
    match (user_cookie, session_cookie) {
        (Some(u), Some(t)) => match parsed_i32(u@) {
            Some(id) => if is_session(m, id, t@) {
                Some(id)
            } else {
                None
            },
            None => None,
        },
        _ => None,
    }
}

/// The user that the `user` and `session` cookies prove, if they do: both
/// must be present, the first must read as a user id and the second must be
/// a live session of that user. The reason for a refusal is not told.
pub fn authenticate(
    sessions: &SessionManager,
    user_cookie: Option<&str>,
    session_cookie: Option<&str>,
) -> (r: Option<i32>)
    ensures
        r == authenticate_spec(sessions@, user_cookie, session_cookie),
{
    match (user_cookie, session_cookie) {
        (Some(u), Some(t)) => match parse_i32(u) {
            Some(id) => if sessions.validate(id, t) {
                Some(id)
            } else {
                None
            },
            None => None,
        },
        _ => None,
    }
}

/// Ends every session of the user that the cookies prove; without such a
/// user nothing changes and the credentials are refused.
pub fn delete_sessions(
    sessions: &mut SessionManager,
    user_cookie: Option<&str>,
    session_cookie: Option<&str>,
) -> (r: DeleteSessionResp)
    ensures
        r != DeleteSessionResp::UnexpectedError,
        match authenticate_spec(old(sessions)@, user_cookie, session_cookie) {
            Some(id) => r == DeleteSessionResp::Success && final(sessions)@ == without_user(old(sessions)@, id),
            None => r == DeleteSessionResp::InvalidCredentials && final(sessions)@ == old(
                sessions,
            )@,
        },
{
    match authenticate(sessions, user_cookie, session_cookie) {
        Some(id) => {
            sessions.delete_all(id);
            DeleteSessionResp::Success
        },
        None => DeleteSessionResp::InvalidCredentials,
    }
}

/// The HTTP status of a reply to ending sessions.
pub fn delete_session_status(resp: DeleteSessionResp) -> (r: u16)
    ensures
        r == (match resp {
            DeleteSessionResp::Success => 200u16,
            DeleteSessionResp::InvalidCredentials => 403u16,
            DeleteSessionResp::UnexpectedError => 500u16,
        }),
{
    match resp {
        DeleteSessionResp::Success => 200,
        DeleteSessionResp::InvalidCredentials => 403,
        DeleteSessionResp::UnexpectedError => 500,
    }
}

/// Starts a batch of `req`'s URLs for `owner`. An empty list is refused
/// before anything is dispatched; a batch that cannot be dispatched is
/// reported as unexpected.
pub fn create_batch(manager: &mut BatchManager, req: CreateBatchReq, owner: i32) -> (r:
    CreateBatchResp)
    requires
        old(manager).wf(),
    ensures
        final(manager).wf(),
        r == CreateBatchResp::NoUrls <==> req.urls@.len() == 0,
        r == CreateBatchResp::NoUrls ==> final(manager).batches() == old(manager).batches()
            && final(manager).coordinator().logs() == old(manager).coordinator().logs(),
        old(manager).coordinator().same_workers(&final(manager).coordinator()),
        req.urls@.len() > 0 && old(manager).coordinator().selector().worker_count() == 0 ==> r
            == CreateBatchResp::UnexpectedError,
        r == CreateBatchResp::UnexpectedError ==> final(manager).batches() == old(
            manager,
        ).batches(),
        r == CreateBatchResp::UnexpectedError ==> exists|sends: Seq<(int, url::Url)>|
            sends_prefix(sends, req.urls@, old(manager).coordinator().worker_count()) && final(manager).coordinator().logs()
                == after_sends(old(manager).coordinator().logs(), sends),
        r != CreateBatchResp::InvalidCredentials,
        r matches CreateBatchResp::Success { batch_uuid } ==> {
            let v = final(manager).batches()[batch_uuid];
            &&& !old(manager).batches().contains_key(batch_uuid)
            &&& final(manager).batches() == old(manager).batches().insert(batch_uuid, v)
            &&& v.all.len() == req.urls@.len()
            &&& v.complete.len() == 0
            &&& v.failed.len() == 0
            &&& v.owner == owner
            &&& forall|i: int|
                0 <= i < v.all.len() ==> (#[trigger] final(manager).coordinator()@[v.all[i]]).state
                    == CaptureState::Pending
            &&& final(manager).coordinator().logs() == after_sends(
                old(manager).coordinator().logs(),
                Seq::new(
                    req.urls@.len(),
                    |i: int| (final(manager).coordinator()@[v.all[i]].worker as int, req.urls@[i]),
                ),
            )
        },
{
    if req.urls.len() == 0 {
        return CreateBatchResp::NoUrls;
    }
    match manager.process_batch(req.urls, owner) {
        Ok(batch_uuid) => CreateBatchResp::Success { batch_uuid },
        Err(_) => CreateBatchResp::UnexpectedError,
    }
}

} // verus!
