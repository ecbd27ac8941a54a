use capture_core::api::{
    check_new_user, create_batch, create_session_status, create_user_response, create_user_status,
    delete_session_status, login_response, new_user, InsertOutcome, PasswordError,
};
use capture_core::batch::{BatchManager, JobProgress};
use capture_core::capture::CaptureManager;
use capture_core::client::{
    CreateBatchReq, CreateBatchResp, CreateSessionResp, CreateUserReq, CreateUserResp, DeleteSessionResp,
};
use capture_core::config::{Config, WorkerSpec};
use capture_core::resp::{monitor_response, MonitorCaptureResp};
use capture_core::tasks::{worker_step, LoopAction, ReceiveEvent};
use url::Url;

fn req(name: &str, password: &str) -> CreateUserReq {
    CreateUserReq { name: name.to_string(), password: password.to_string() }
}

#[test]
fn registration_checks_name_then_password() {
    assert_eq!(check_new_user(&req("", "")), Some(CreateUserResp::InvalidUsername));
    assert_eq!(check_new_user(&req("", "secret123")), Some(CreateUserResp::InvalidUsername));
    assert_eq!(check_new_user(&req("alice", "")), Some(CreateUserResp::InvalidPassword));
    assert_eq!(check_new_user(&req("alice", "secret123")), None);
}

#[test]
fn register_then_register_again_scenario() {
    let r = req("alice", "secret123");
    assert_eq!(check_new_user(&r), None);
    let rec = new_user(&r, "$2b$hash".to_string());
    assert_eq!(rec.name, "alice");
    assert_eq!(rec.passhash, "$2b$hash");
    assert_eq!(create_user_response(InsertOutcome::Inserted { rows: 1 }), CreateUserResp::Success);
    assert_eq!(check_new_user(&r), None);
    assert_eq!(create_user_response(InsertOutcome::UniqueViolation), CreateUserResp::UnavailableUsername);
}

#[test]
fn unexpected_insert_results() {
    assert_eq!(create_user_response(InsertOutcome::Failed), CreateUserResp::UnexpectedError);
    assert_eq!(create_user_response(InsertOutcome::Inserted { rows: 0 }), CreateUserResp::UnexpectedError);
    assert_eq!(create_user_response(InsertOutcome::Inserted { rows: 2 }), CreateUserResp::UnexpectedError);
}

#[test]
fn status_codes() {
    assert_eq!(create_user_status(CreateUserResp::Success), 201);
    assert_eq!(create_user_status(CreateUserResp::UnavailableUsername), 409);
    assert_eq!(create_user_status(CreateUserResp::InvalidUsername), 400);
    assert_eq!(create_user_status(CreateUserResp::InvalidPassword), 400);
    assert_eq!(create_user_status(CreateUserResp::UnexpectedError), 500);
    assert_eq!(create_session_status(CreateSessionResp::Success), 201);
    assert_eq!(create_session_status(CreateSessionResp::InvalidCredentials), 403);
    assert_eq!(create_session_status(CreateSessionResp::UnexpectedError), 500);
    assert_eq!(delete_session_status(DeleteSessionResp::Success), 200);
    assert_eq!(delete_session_status(DeleteSessionResp::InvalidCredentials), 403);
}

#[test]
fn login_replies() {
    assert_eq!(login_response(Ok(true)), CreateSessionResp::Success);
    assert_eq!(login_response(Ok(false)), CreateSessionResp::InvalidCredentials);
    assert_eq!(login_response(Err(PasswordError::Failed)), CreateSessionResp::UnexpectedError);
}

#[test]
fn monitor_replies() {
    assert_eq!(monitor_response(None), MonitorCaptureResp::NoSuchCapture);
    let p = JobProgress { total: 2, complete_count: 1, failed_count: 0, pending_count: 1 };
    assert_eq!(monitor_response(Some(p)), MonitorCaptureResp::Capturing { progress: p });
}

#[test]
fn batch_requests() {
    let mut empty = BatchManager::new(CaptureManager::from_pairs(Vec::new()));
    assert_eq!(create_batch(&mut empty, CreateBatchReq { urls: Vec::new() }, 1), CreateBatchResp::NoUrls);
    let one = CreateBatchReq { urls: vec![Url::parse("http://a").unwrap()] };
    assert_eq!(create_batch(&mut empty, one, 1), CreateBatchResp::UnexpectedError);

    let (tx, rx) = async_channel::unbounded::<Url>();
    let spec = WorkerSpec::new("w".to_string(), Url::parse("http://w").unwrap(), "SECRET-REDACTED".to_string());
    let mut bm = BatchManager::new(CaptureManager::from_pairs(vec![(spec, tx)]));
    let two = CreateBatchReq { urls: vec![Url::parse("http://a").unwrap(), Url::parse("http://b").unwrap()] };
    match create_batch(&mut bm, two, 1) {
        CreateBatchResp::Success { batch_uuid } => {
            assert_eq!(bm.get_status(batch_uuid).unwrap().total, 2);
        }
        other => panic!("unexpected reply {other:?}"),
    }
    assert_eq!(rx.len(), 2);
}

#[test]
fn config_needs_a_worker() {
    assert!(!Config::from_workers(Vec::new()).validate());
    let spec = WorkerSpec::new("alpha".to_string(), Url::parse("http://w").unwrap(), "SECRET-REDACTED".to_string());
    assert_eq!(spec.nickname(), "alpha");
    let c = Config::from_workers(vec![spec]);
    assert!(c.validate());
    assert_eq!(c.workers().len(), 1);
    assert_eq!(c.workers()[0].nickname(), "alpha");
}

#[test]
fn worker_loop_steps() {
    assert_eq!(worker_step(ReceiveEvent::Received), LoopAction::Capture);
    assert_eq!(worker_step(ReceiveEvent::TransientError), LoopAction::Retry);
    assert_eq!(worker_step(ReceiveEvent::Closed), LoopAction::Stop);
}
