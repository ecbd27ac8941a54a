//! The session store: which user each live login token belongs to.

use vstd::prelude::*;

use crate::bindings::{base64_of, encode_base64, random_token_bytes};
use crate::models::DbUser;

verus! {

/// Whether `token` is a live session of `user` in the store `m`, which maps
/// each live token to its user.
pub open spec fn is_session(m: Map<Seq<char>, i32>, user: i32, token: Seq<char>) -> bool {
    m.contains_key(token) && m[token] == user
}

/// The store after `token` was issued to `user`.
pub open spec fn with_token(m: Map<Seq<char>, i32>, user: i32, token: Seq<char>) -> Map<
    Seq<char>,
    i32,
> {
    m.insert(token, user)
}

/// The store after every session of `user` ended.
pub open spec fn without_user(m: Map<Seq<char>, i32>, user: i32) -> Map<Seq<char>, i32> {
    Map::new(|t: Seq<char>| m.contains_key(t) && m[t] != user, |t: Seq<char>| m[t])
}

/// One step of the store's history: a token issued to a user, or all of a
/// user's sessions ended.
pub ghost enum SessionEvent {
    Created { user: i32, token: Seq<char> },
    DeletedAll { user: i32 },
}

/// The store after the events `h`, in order, starting from `m`.
pub open spec fn replay(m: Map<Seq<char>, i32>, h: Seq<SessionEvent>) -> Map<Seq<char>, i32>
    decreases h.len(),
{
    if h.len() == 0 {
        m
    } else {
        let prev = replay(m, h.drop_last());
        match h.last() {
            SessionEvent::Created { user, token } => with_token(prev, user, token),
            SessionEvent::DeletedAll { user } => without_user(prev, user),
        }
    }
}

/// Whether `token` was issued to `user` in `h` with no later end of all of
/// that user's sessions.
pub open spec fn issued_and_kept(h: Seq<SessionEvent>, user: i32, token: Seq<char>) -> bool {
    exists|i: int|
        0 <= i < h.len() && h[i] == (SessionEvent::Created { user, token }) && forall|j: int|
            i < j < h.len() ==> h[j] != (SessionEvent::DeletedAll { user })
}

/// Whether no token in `h` was issued to two different users.
pub open spec fn tokens_unshared(h: Seq<SessionEvent>) -> bool {
    forall|i: int, j: int|
        0 <= i < h.len() && 0 <= j < h.len() && (#[trigger] h[i]) is Created && (#[trigger] h[j]) is Created
            && h[i]->Created_token == h[j]->Created_token ==> h[i]->Created_user
            == h[j]->Created_user
}

/// From an empty store, after any history of `create` and `delete_all`
/// calls in which no token was issued to two users, a token validates for a
/// user exactly when it was issued to that user and no `delete_all` of that
/// user came after.
pub proof fn lemma_validate_iff_issued_and_kept(h: Seq<SessionEvent>, user: i32, token: Seq<char>)
    requires
        tokens_unshared(h),
    ensures
        is_session(replay(Map::empty(), h), user, token) == issued_and_kept(h, user, token),
    decreases h.len(),
{
    if h.len() > 0 {
        let p = h.drop_last();
        let n = h.len() - 1;
        assert forall|i: int| 0 <= i < p.len() implies p[i] == h[i] by {}
        assert(tokens_unshared(p)) by {
            assert forall|i: int, j: int|
                0 <= i < p.len() && 0 <= j < p.len() && (#[trigger] p[i]) is Created && (#[trigger] p[j]) is Created
                    && p[i]->Created_token == p[j]->Created_token implies p[i]->Created_user
                == p[j]->Created_user by {
                assert(h[i] == p[i] && h[j] == p[j]);
            }
        }
        lemma_validate_iff_issued_and_kept(p, user, token);
        if issued_and_kept(p, user, token) && h[n] != (SessionEvent::DeletedAll { user }) {
            let i = choose|i: int|
                0 <= i < p.len() && p[i] == (SessionEvent::Created { user, token }) && forall|j: int|
                    i < j < p.len() ==> p[j] != (SessionEvent::DeletedAll { user });
            assert(h[i] == p[i]);
            assert(issued_and_kept(h, user, token));
        }
        if issued_and_kept(h, user, token) {
            let i = choose|i: int|
                0 <= i < h.len() && h[i] == (SessionEvent::Created { user, token }) && forall|j: int|
                    i < j < h.len() ==> h[j] != (SessionEvent::DeletedAll { user });
            if i < n {
                assert(p[i] == h[i]);
                assert(issued_and_kept(p, user, token));
            }
        }
        match h[n] {
            SessionEvent::Created { user: u, token: t } => {
                if t == token && u != user && issued_and_kept(h, user, token) {
                    let i = choose|i: int|
                        0 <= i < h.len() && h[i] == (SessionEvent::Created { user, token })
                            && forall|j: int|
                            i < j < h.len() ==> h[j] != (SessionEvent::DeletedAll { user });
                    assert(h[i] is Created && h[n] is Created);
                }
                if t == token && u == user {
                    assert(issued_and_kept(h, user, token)) by {
                        assert(h[n] == (SessionEvent::Created { user, token }));
                    }
                }
            },
            SessionEvent::DeletedAll { user: u } => {
                if u == user && issued_and_kept(h, user, token) {
                    let i = choose|i: int|
                        0 <= i < h.len() && h[i] == (SessionEvent::Created { user, token })
                            && forall|j: int|
                            i < j < h.len() ==> h[j] != (SessionEvent::DeletedAll { user });
                    assert(i != n);
                }
            },
        }
    }
}

/// Ending all sessions of `user` leaves no token of that user valid, and
/// every other user's sessions as they were.
pub proof fn lemma_delete_all_isolated(m: Map<Seq<char>, i32>, user: i32)
    ensures
        forall|t: Seq<char>| !is_session(#[trigger] without_user(m, user), user, t),
        forall|other: i32, t: Seq<char>|
            other != user ==> is_session(#[trigger] without_user(m, user), other, t) == is_session(
                m,
                other,
                t,
            ),
{
}

/// A token is a session of at most one user.
pub proof fn lemma_token_single_owner(m: Map<Seq<char>, i32>, a: i32, b: i32, token: Seq<char>)
    requires
        is_session(m, a, token),
        is_session(m, b, token),
    ensures
        a == b,
{
}

/// Where `token` stands in `entries`, if anywhere.
fn find_token(entries: &Vec<(String, i32)>, token: &String) -> (r: Option<usize>)
    ensures
        r matches Some(i) ==> i < entries@.len() && entries@[i as int].0@ == token@,
        r is None ==> forall|i: int| 0 <= i < entries@.len() ==> entries@[i].0@ != token@,
{
    let mut i: usize = 0;
    while i < entries.len()
        invariant
            i <= entries@.len(),
            forall|k: int| 0 <= k < i ==> entries@[k].0@ != token@,
        decreases entries.len() - i,
    {
        if entries[i].0 == *token {
            return Some(i);
        }
        i += 1;
    }
    None
}

/// The index behind the session store: each live token with its user, every
/// token listed once.
pub struct SessionManagerInner {
    forward: Vec<(String, i32)>,
    tokens: Ghost<Map<Seq<char>, i32>>,
}

impl View for SessionManagerInner {
    type V = Map<Seq<char>, i32>;

    closed spec fn view(&self) -> Map<Seq<char>, i32> {
        self.tokens@
    }
}

/// `entries` lists exactly the tokens of `m`, each once, with its user.
spec fn lists_exactly(entries: Seq<(String, i32)>, m: Map<Seq<char>, i32>) -> bool {
    &&& forall|i: int|
        0 <= i < entries.len() ==> m.contains_key((#[trigger] entries[i]).0@) && m[entries[i].0@]
            == entries[i].1
    &&& forall|t: Seq<char>|
        #[trigger] m.contains_key(t) ==> exists|i: int| 0 <= i < entries.len() && entries[i].0@ == t
    &&& forall|i: int, j: int| 0 <= i < j < entries.len() ==> entries[i].0@ != entries[j].0@
}

impl SessionManagerInner {
    #[verifier::type_invariant]
    spec fn inv(self) -> bool {
        lists_exactly(self.forward@, self.tokens@)
    }

    /// An index with no sessions.
    pub fn new() -> (r: Self)
        ensures
            r@ == Map::<Seq<char>, i32>::empty(),
    {
        SessionManagerInner { forward: Vec::new(), tokens: Ghost(Map::empty()) }
    }

    /// Records `token` as a session of `user`; a token already live moves
    /// to `user`.
    pub fn insert(&mut self, user: i32, token: String)
        ensures
            final(self)@ == with_token(old(self)@, user, token@),
    {
        let mut cur = SessionManagerInner::new();
        std::mem::swap(self, &mut cur);
        proof {
            use_type_invariant(&cur);
        }
        let SessionManagerInner { forward, tokens } = cur;
        let ghost m = tokens@;
        let ghost tv = token@;
        let mut forward = forward;
        match find_token(&forward, &token) {
            Some(i) => {
                let ghost before = forward@;
                forward.remove(i);
                assert forall|t: Seq<char>| #[trigger] m.contains_key(t) && t != tv implies exists|
                    k: int,
                | 0 <= k < forward@.len() && forward@[k].0@ == t by {
                    let k = choose|k: int| 0 <= k < before.len() && before[k].0@ == t;
                    if k < i {
                        assert(forward@[k] == before[k]);
                    } else {
                        assert(k != i);
                        assert(forward@[k - 1] == before[k]);
                    }
                }
                assert forall|a: int, b: int| 0 <= a < b < forward@.len() implies forward@[a].0@
                    != forward@[b].0@ by {
                    let a2 = if a < i { a } else { a + 1 };
                    let b2 = if b < i { b } else { b + 1 };
                    assert(forward@[a] == before[a2] && forward@[b] == before[b2]);
                }
                assert forall|k: int| 0 <= k < forward@.len() implies forward@[k].0@ != tv by {
                    let k2 = if k < i { k } else { k + 1 };
                    assert(forward@[k] == before[k2]);
                }
            },
            None => {},
        }
        let ghost rest = forward@;
        forward.push((token, user));
        let ghost nm = m.insert(tv, user);
        assert forall|t: Seq<char>| #[trigger] nm.contains_key(t) implies exists|k: int|
            0 <= k < forward@.len() && forward@[k].0@ == t by {
            if t == tv {
                assert(forward@[rest.len() as int].0@ == tv);
            } else {
                let k = choose|k: int| 0 <= k < rest.len() && rest[k].0@ == t;
                assert(forward@[k] == rest[k]);
            }
        }
        assert forall|k: int| 0 <= k < forward@.len() implies nm.contains_key(
            (#[trigger] forward@[k]).0@,
        ) && nm[forward@[k].0@] == forward@[k].1 by {
            if k < rest.len() {
                assert(forward@[k] == rest[k]);
            }
        }
        *self = SessionManagerInner { forward, tokens: Ghost(nm) };
    }

    /// Whether `token` is a session of `user`.
    pub fn contains(&self, user: i32, token: &str) -> (r: bool)
        ensures
            r == is_session(self@, user, token@),
    {
        proof {
            use_type_invariant(self);
        }
        let wanted = token.to_owned();
        match find_token(&self.forward, &wanted) {
            Some(i) => self.forward[i].1 == user,
            None => {
                proof {
                    if self@.contains_key(token@) {
                        let k = choose|k: int|
                            0 <= k < self.forward@.len() && self.forward@[k].0@ == token@;
                    }
                }
                false
            },
        }
    }

    /// Drops every session of `user`.
    #[verifier::rlimit(60)]
    pub fn remove_user(&mut self, user: i32)
        ensures
            final(self)@ == without_user(old(self)@, user),
    {
        let mut cur = SessionManagerInner::new();
        std::mem::swap(self, &mut cur);
        proof {
            use_type_invariant(&cur);
        }
        let SessionManagerInner { forward, tokens } = cur;
        let ghost m = tokens@;
        let ghost nm = without_user(m, user);
        let mut kept: Vec<(String, i32)> = Vec::new();
        let mut rest = forward;
        let ghost all = rest@;
        let ghost mut done: int = 0;
        let ghost mut src: Seq<int> = Seq::empty();
        while rest.len() > 0
            invariant
                lists_exactly(all, m),
                0 <= done <= all.len(),
                rest@ == all.skip(done),
                src.len() == kept@.len(),
                forall|j: int| 0 <= j < kept@.len() ==> 0 <= #[trigger] src[j] < done,
                forall|j: int| 0 <= j < kept@.len() ==> #[trigger] kept@[j] == all[src[j]],
                forall|j: int| 0 <= j < kept@.len() ==> (#[trigger] kept@[j]).1 != user,
                forall|k: int|
                    0 <= k < done && all[k].1 != user ==> exists|j: int|
                        0 <= j < kept@.len() && #[trigger] kept@[j] == all[k],
                forall|a: int, b: int| 0 <= a < b < kept@.len() ==> kept@[a].0@ != kept@[b].0@,
            decreases rest.len(),
        {
            let e = rest.remove(0);
            assert(e == all[done]);
            if e.1 != user {
                let ghost before = kept@;
                kept.push(e);
                assert forall|a: int, b: int| 0 <= a < b < kept@.len() implies kept@[a].0@
                    != kept@[b].0@ by {
                    if b == before.len() {
                        assert(kept@[a] == before[a]);
                        assert(all[src[a]].0@ != all[done].0@);
                    } else {
                        assert(kept@[a] == before[a] && kept@[b] == before[b]);
                    }
                }
                proof {
                    let s0 = src;
                    src = src.push(done);
                    assert forall|j: int| 0 <= j < kept@.len() implies 0 <= #[trigger] src[j] < done + 1
                        && kept@[j] == all[src[j]] && kept@[j].1 != user by {
                        if j < before.len() {
                            assert(kept@[j] == before[j]);
                            assert(src[j] == s0[j]);
                        }
                    }
                }
                assert forall|k: int| 0 <= k < done + 1 && all[k].1 != user implies exists|j: int|
                    0 <= j < kept@.len() && #[trigger] kept@[j] == all[k] by {
                    if k < done {
                        let j = choose|j: int| 0 <= j < before.len() && #[trigger] before[j] == all[k];
                        assert(kept@[j] == before[j]);
                    } else {
                        assert(kept@[before.len() as int] == all[k]);
                    }
                }
            }
            proof {
                done = done + 1;
            }
            assert(rest@ =~= all.skip(done));
        }
        assert forall|i: int| #![trigger kept@[i]] 0 <= i < kept@.len() implies nm.contains_key(kept@[i].0@)
            && nm[kept@[i].0@] == kept@[i].1 by {
            assert(kept@[i] == all[src[i]]);
        }
        assert forall|t: Seq<char>| #[trigger] nm.contains_key(t) implies exists|i: int|
            0 <= i < kept@.len() && kept@[i].0@ == t by {
            let k = choose|k: int| 0 <= k < all.len() && all[k].0@ == t;
            assert(all[k] == all[k]);
            let j = choose|j: int| 0 <= j < kept@.len() && #[trigger] kept@[j] == all[k];
        }
        *self = SessionManagerInner { forward: kept, tokens: Ghost(nm) };
    }
}

/// Login sessions. Each live token belongs to exactly one user, the one it
/// was issued to; sessions end only all at once, per user. Callers that
/// share the store serialise its operations under one lock.
pub struct SessionManager {
    inner: SessionManagerInner,
}

impl View for SessionManager {
    type V = Map<Seq<char>, i32>;

    closed spec fn view(&self) -> Map<Seq<char>, i32> {
        self.inner@
    }
}

impl SessionManager {
    /// A store with no sessions.
    pub fn new() -> (r: Self)
        ensures
            r@ == Map::<Seq<char>, i32>::empty(),
    {
        SessionManager { inner: SessionManagerInner::new() }
    }

    /// Opens a session for `user` under a fresh token: the standard base64
    /// text of 36 random bytes. The token is returned.
    pub fn create(&mut self, user: &DbUser) -> (r: String)
        ensures
            final(self)@ == with_token(old(self)@, user.id, r@),
            exists|b: Seq<u8>| b.len() == 36 && r@ == base64_of(b),
    {
        let bytes = random_token_bytes();
        self.create_from_bytes(user, &bytes)
    }

    /// Opens a session for `user` under the token that `bytes` encode to in
    /// standard base64, and returns the token.
    pub fn create_from_bytes(&mut self, user: &DbUser, bytes: &[u8; 36]) -> (r: String)
        ensures
            r@ == base64_of(bytes@),
            r@.len() == 48,
            final(self)@ == with_token(old(self)@, user.id, r@),
    {
        let token = encode_base64(bytes);
        self.inner.insert(user.id, token.clone());
        token
    }

    /// Whether `token` is a live session of `user`.
    pub fn validate(&self, user: i32, token: &str) -> (r: bool)
        ensures
            r == is_session(self@, user, token@),
    {
        self.inner.contains(user, token)
    }

    /// Ends every session of `user`; a user without sessions is left as is.
    pub fn delete_all(&mut self, user: i32)
        ensures
            final(self)@ == without_user(old(self)@, user),
    {
        self.inner.remove_user(user);
    }
}

} // verus!
