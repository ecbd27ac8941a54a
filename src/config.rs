//! The configured capture workers.

use vstd::prelude::*;

verus! {

/// One configured capture worker: its nickname, the root URL it serves at and
/// the token it expects.
#[derive(Clone)]
pub struct WorkerSpec {
    nickname: String,
    root: url::Url,
    auth_token: String,
}

impl WorkerSpec {
    pub closed spec fn nickname_of(&self) -> Seq<char> {
        self.nickname@
    }

    pub closed spec fn auth_token_of(&self) -> Seq<char> {
        self.auth_token@
    }

    pub fn new(nickname: String, root: url::Url, auth_token: String) -> (r: Self)
        ensures
            r.nickname_of() == nickname@,
            r.auth_token_of() == auth_token@,
    {
        WorkerSpec { nickname, root, auth_token }
    }

    pub fn root(&self) -> (r: &url::Url) {
        &self.root
    }

    pub fn auth_token(&self) -> (r: &str)
        ensures
            r@ == self.auth_token_of(),
    {
        self.auth_token.as_str()
    }

    pub fn nickname(&self) -> (r: &str)
        ensures
            r@ == self.nickname_of(),
    {
        self.nickname.as_str()
    }
}

/// The service's configuration: the list of capture workers.
pub struct Config {
    workers: Vec<WorkerSpec>,
}

impl Config {
    pub closed spec fn worker_count(&self) -> nat {
        self.workers@.len()
    }

    pub fn from_workers(workers: Vec<WorkerSpec>) -> (r: Self)
        ensures
            r.worker_count() == workers@.len(),
    {
        Config { workers }
    }

    /// A configuration is usable when it names at least one worker.
    pub fn validate(&self) -> (r: bool)
        ensures
            r == (self.worker_count() > 0),
    {
        self.workers.len() > 0
    }

    pub fn workers(&self) -> (r: Vec<WorkerSpec>)
        ensures
            r@.len() == self.worker_count(),
    {
        self.workers.clone()
    }
}

} // verus!
