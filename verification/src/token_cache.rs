//! The record of live sessions.
//!
//! A session entry is a triple of subject id, issuance timestamp and opaque
//! secret; membership in the store is the sole source of truth for whether a
//! bearer-presented access credential is still live. Entries age out lazily:
//! `authorize` evicts an entry whose age exceeds the access-token lifetime at
//! the moment it is read, rather than by a background scan.

use vstd::prelude::*;
use vstd::string::*;

use crate::TOKEN_MAX_AGE;

verus! {

/// One session credential as presented by a client: who, when issued, and the
/// session secret.
pub struct TokenQuery {
    pub user_id: String,
    pub created_at: u64,
    pub secret: String,
}

/// The mathematical value of one stored session entry.
pub ghost struct EntryModel {
    pub user: Seq<char>,
    pub created: u64,
    pub secret: Seq<char>,
}

struct SessionEntry {
    user_id: String,
    created_at: u64,
    secret: String,
}

impl SessionEntry {
    spec fn model(&self) -> EntryModel {
        EntryModel { user: self.user_id@, created: self.created_at, secret: self.secret@ }
    }
}

pub open spec fn seq_has<T>(m: Seq<T>, e: T) -> bool {
    exists|i: int| 0 <= i < m.len() && m[i] == e
}

/// An entry issued at `created` is still live at `now` when its age does not
/// exceed the access-token lifetime. An issuance in the future counts as live.
pub open spec fn session_live(created: u64, now: u64) -> bool {
    now - created <= TOKEN_MAX_AGE
}

/// What `authorize` reports: the entry is present and still live.
pub open spec fn spec_authorize_result(
    cache: TokenCache,
    user: Seq<char>,
    created: u64,
    secret: Seq<char>,
    now: u64,
) -> bool {
    cache.has_session(user, created, secret) && session_live(created, now)
}

/// How `delete_all` changes the store: exactly the subject's entries go.
pub open spec fn spec_delete_all_rel(pre: TokenCache, post: TokenCache, user: Seq<char>) -> bool {
    forall|u: Seq<char>, c: u64, s: Seq<char>|
        #[trigger] post.has_session(u, c, s) <==> (pre.has_session(u, c, s) && u != user)
}

/// The set of live session entries, stored in memory. Backing this record
/// with an external store is an I/O concern that sits outside the library;
/// the semantics of every operation are fixed here.
pub struct TokenCache {
    entries: Vec<SessionEntry>,
}

impl TokenCache {
    spec fn model(&self) -> Seq<EntryModel> {
        self.entries@.map_values(|e: SessionEntry| e.model())
    }

    /// The number of stored entries.
    pub closed spec fn spec_len(&self) -> nat {
        self.model().len()
    }

    /// Whether the store holds the session entry (user, created, secret).
    pub closed spec fn has_session(&self, user: Seq<char>, created: u64, secret: Seq<char>) -> bool {
        seq_has(self.model(), EntryModel { user, created, secret })
    }

    pub fn new() -> (r: TokenCache)
        ensures
            forall|u: Seq<char>, c: u64, s: Seq<char>| !(#[trigger] r.has_session(u, c, s)),
    {
        TokenCache { entries: Vec::new() }
    }

    /// Inserts the entry. Duplicate inserts are idempotent: the store has set
    /// semantics.
    pub fn add(&mut self, query: TokenQuery)
        ensures
            final(self).has_session(query.user_id@, query.created_at, query.secret@),
            forall|u: Seq<char>, c: u64, s: Seq<char>|
                #[trigger] final(self).has_session(u, c, s) <==> (old(self).has_session(u, c, s)
                    || (u == query.user_id@ && c == query.created_at && s == query.secret@)),
    {
        let ghost e = EntryModel {
            user: query.user_id@,
            created: query.created_at,
            secret: query.secret@,
        };
        if self.find_triple(&query).is_some() {
            return ;
        }
        let ghost pre = self.model();
        self.entries.push(SessionEntry {
            user_id: query.user_id,
            created_at: query.created_at,
            secret: query.secret,
        });
        proof {
            assert(self.model() =~= pre.push(e));
            assert forall|u: Seq<char>, c: u64, s: Seq<char>|
                #[trigger] self.has_session(u, c, s) <==> (seq_has(pre, EntryModel { user: u, created: c, secret: s })
                    || (u == e.user && c == e.created && s == e.secret)) by {
                lemma_seq_has_push(pre, e, EntryModel { user: u, created: c, secret: s });
            }
            assert(self.model()[pre.len() as int] == e);
        }
    }

    /// Membership test with lazy expiry: reports whether the entry is present
    /// and still live at `now`, and evicts it when it is present but stale.
    pub fn authorize(&mut self, query: &TokenQuery, now: u64) -> (r: bool)
        ensures
            r == spec_authorize_result(*old(self), query.user_id@, query.created_at, query.secret@, now),
            forall|u: Seq<char>, c: u64, s: Seq<char>|
                #[trigger] final(self).has_session(u, c, s) <==> (old(self).has_session(u, c, s)
                    && !(u == query.user_id@ && c == query.created_at && s == query.secret@
                    && !session_live(c, now))),
    {
        let found = self.find_triple(query).is_some();
        let alive = query.created_at > now || now - query.created_at <= TOKEN_MAX_AGE;
        proof {
            assert(alive == session_live(query.created_at, now));
        }
        if found && !alive {
            self.remove_triple(query);
            return false;
        }
        found && alive
    }

    /// Re-dates an entry: the old triple goes and the same secret comes back
    /// with issuance time `now`, sliding the liveness window without changing
    /// the session's identity.
    pub fn extend_ttl(&mut self, query: &TokenQuery, now: u64)
        ensures
            forall|u: Seq<char>, c: u64, s: Seq<char>|
                #[trigger] final(self).has_session(u, c, s) <==> ((old(self).has_session(u, c, s)
                    && !(u == query.user_id@ && c == query.created_at && s == query.secret@))
                    || (u == query.user_id@ && c == now && s == query.secret@)),
    {
        self.remove_triple(query);
        let fresh = TokenQuery {
            user_id: query.user_id.clone(),
            created_at: now,
            secret: query.secret.clone(),
        };
        self.add(fresh);
    }

    /// Revokes one session entry. Reports whether anything was removed.
    pub fn delete_one(&mut self, query: &TokenQuery) -> (r: bool)
        ensures
            r == old(self).has_session(query.user_id@, query.created_at, query.secret@),
            forall|u: Seq<char>, c: u64, s: Seq<char>|
                #[trigger] final(self).has_session(u, c, s) <==> (old(self).has_session(u, c, s)
                    && !(u == query.user_id@ && c == query.created_at && s == query.secret@)),
    {
        let found = self.find_triple(query).is_some();
        self.remove_triple(query);
        found
    }

    /// Account-wide revocation: every entry of the subject goes.
    pub fn delete_all(&mut self, user_id: &str)
        ensures
            spec_delete_all_rel(*old(self), *final(self), user_id@),
        decreases old(self).spec_len(),
    {
        let i = match self.find_user(user_id) {
            Some(i) => i,
            None => {
                return ;
            },
        };
        let ghost pre = self.model();
        self.entries.remove(i);
        proof {
            assert(self.model() =~= pre.remove(i as int));
            assert forall|u: Seq<char>, c: u64, s: Seq<char>|
                ((u != user_id@) ==> (#[trigger] self.has_session(u, c, s) <==> seq_has(
                    pre,
                    EntryModel { user: u, created: c, secret: s },
                ))) && (self.has_session(u, c, s) ==> seq_has(
                    pre,
                    EntryModel { user: u, created: c, secret: s },
                )) by {
                lemma_seq_has_remove(pre, i as int, EntryModel { user: u, created: c, secret: s });
            }
        }
        self.delete_all(user_id);
    }

    /// Index of the first entry equal to the query's triple.
    fn find_triple(&self, query: &TokenQuery) -> (r: Option<usize>)
        ensures
            r matches Some(i) ==> i < self.model().len() && self.model()[i as int] == (EntryModel {
                user: query.user_id@,
                created: query.created_at,
                secret: query.secret@,
            }),
            r is None ==> !self.has_session(query.user_id@, query.created_at, query.secret@),
    {
        let ghost e = EntryModel {
            user: query.user_id@,
            created: query.created_at,
            secret: query.secret@,
        };
        let n = self.entries.len();
        let mut i: usize = 0;
        while i < n
            invariant
                0 <= i <= n,
                n == self.model().len(),
                e == (EntryModel {
                    user: query.user_id@,
                    created: query.created_at,
                    secret: query.secret@,
                }),
                forall|j: int| 0 <= j < i ==> self.model()[j] != e,
            decreases n - i,
        {
            let entry = &self.entries[i];
            proof {
                assert(self.model()[i as int] == self.entries@[i as int].model());
            }
            if entry.user_id == query.user_id && entry.created_at == query.created_at
                && entry.secret == query.secret {
                return Some(i);
            }
            proof {
                assert(self.model()[i as int] != e);
            }
            i = i + 1;
        }
        None
    }

    /// Index of the first entry belonging to the subject.
    fn find_user(&self, user_id: &str) -> (r: Option<usize>)
        ensures
            r matches Some(i) ==> i < self.model().len() && self.model()[i as int].user
                == user_id@,
            r is None ==> forall|j: int|
                0 <= j < self.model().len() ==> (#[trigger] self.model()[j]).user != user_id@,
    {
        let target = String::from_str(user_id);
        let n = self.entries.len();
        let mut i: usize = 0;
        while i < n
            invariant
                0 <= i <= n,
                n == self.model().len(),
                target@ == user_id@,
                forall|j: int| 0 <= j < i ==> (#[trigger] self.model()[j]).user != user_id@,
            decreases n - i,
        {
            if self.entries[i].user_id == target {
                return Some(i);
            }
            i = i + 1;
        }
        None
    }

    /// Removes every entry equal to the query's triple.
    fn remove_triple(&mut self, query: &TokenQuery)
        ensures
            forall|u: Seq<char>, c: u64, s: Seq<char>|
                #[trigger] final(self).has_session(u, c, s) <==> (old(self).has_session(u, c, s)
                    && !(u == query.user_id@ && c == query.created_at && s == query.secret@)),
        decreases old(self).entries@.len(),
    {
        let ghost e = EntryModel {
            user: query.user_id@,
            created: query.created_at,
            secret: query.secret@,
        };
        let i = match self.find_triple(query) {
            Some(i) => i,
            None => {
                return ;
            },
        };
        let ghost pre = self.model();
        self.entries.remove(i);
        proof {
            assert(self.model() =~= pre.remove(i as int));
            assert forall|u: Seq<char>, c: u64, s: Seq<char>|
                ((EntryModel { user: u, created: c, secret: s } != e) ==> (
                #[trigger] self.has_session(u, c, s) <==> seq_has(
                    pre,
                    EntryModel { user: u, created: c, secret: s },
                ))) && (self.has_session(u, c, s) ==> seq_has(
                    pre,
                    EntryModel { user: u, created: c, secret: s },
                )) by {
                lemma_seq_has_remove(pre, i as int, EntryModel { user: u, created: c, secret: s });
            }
        }
        self.remove_triple(query);
    }
}

/// Pushing an element extends membership by exactly that element.
pub proof fn lemma_seq_has_push<T>(m: Seq<T>, x: T, e: T)
    ensures
        seq_has(m.push(x), e) <==> (seq_has(m, e) || x == e),
{
    if seq_has(m, e) {
        let i = choose|i: int| 0 <= i < m.len() && m[i] == e;
        assert(m.push(x)[i] == e);
    }
    if x == e {
        assert(m.push(x)[m.len() as int] == e);
    }
    if seq_has(m.push(x), e) {
        let i = choose|i: int| 0 <= i < m.push(x).len() && m.push(x)[i] == e;
        if i < m.len() {
            assert(m[i] == e);
        }
    }
}

/// Removing index `i` keeps membership of everything other than `m[i]`, and
/// introduces nothing.
pub proof fn lemma_seq_has_remove<T>(m: Seq<T>, i: int, e: T)
    requires
        0 <= i < m.len(),
    ensures
        m[i] != e ==> (seq_has(m.remove(i), e) <==> seq_has(m, e)),
        seq_has(m.remove(i), e) ==> seq_has(m, e),
{
    let r = m.remove(i);
    assert(r.len() == m.len() - 1);
    if seq_has(r, e) {
        let j = choose|j: int| 0 <= j < r.len() && r[j] == e;
        if j < i {
            assert(m[j] == e);
        } else {
            assert(m[j + 1] == e);
        }
    }
    if m[i] != e && seq_has(m, e) {
        let j = choose|j: int| 0 <= j < m.len() && m[j] == e;
        if j < i {
            assert(r[j] == e);
        } else {
            assert(r[j - 1] == e);
        }
    }
}

/// A session entry just written authorizes immediately: at the moment of
/// issuance (and at any instant within the access-token lifetime) the
/// membership test reports true.
pub proof fn lemma_new_session_authorizes(
    cache: TokenCache,
    user: Seq<char>,
    created: u64,
    secret: Seq<char>,
    now: u64,
)
    requires
        cache.has_session(user, created, secret),
        now - created <= TOKEN_MAX_AGE,
    ensures
        spec_authorize_result(cache, user, created, secret, now),
{
}

/// After account-wide revocation no previously valid entry of the subject
/// authorizes, at any time and whatever entry is asked about.
pub proof fn lemma_revoked_subject_never_authorizes(
    pre: TokenCache,
    post: TokenCache,
    user: Seq<char>,
    created: u64,
    secret: Seq<char>,
    now: u64,
)
    requires
        spec_delete_all_rel(pre, post, user),
    ensures
        !spec_authorize_result(post, user, created, secret, now),
{
}

} // verus!
