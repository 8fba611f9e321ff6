//! Pending email-verification codes.
//!
//! Each code maps to the subject that requested it. `permit` is a
//! read-and-delete in one step, so a verification code can be redeemed at
//! most once; backing the record with an external store whose expiry drops
//! stale codes is an I/O concern outside the library.

use vstd::prelude::*;
use vstd::string::*;

use crate::token_cache::{seq_has, lemma_seq_has_push, lemma_seq_has_remove};

verus! {

/// A pending verification: which subject, under which emailed code.
pub struct VerifyCacheQuery {
    pub user_id: String,
    pub code: String,
}

/// The mathematical value of one pending verification.
pub ghost struct PendingModel {
    pub code: Seq<char>,
    pub user: Seq<char>,
}

struct Pending {
    code: String,
    user_id: String,
}

impl Pending {
    spec fn model(&self) -> PendingModel {
        PendingModel { code: self.code@, user: self.user_id@ }
    }
}

/// The set of outstanding verification codes, stored in memory.
pub struct VerifyCache {
    pending: Vec<Pending>,
}

impl VerifyCache {
    spec fn model(&self) -> Seq<PendingModel> {
        self.pending@.map_values(|p: Pending| p.model())
    }

    /// The number of outstanding codes.
    pub closed spec fn spec_len(&self) -> nat {
        self.model().len()
    }

    /// Whether `code` is outstanding for `user`.
    pub closed spec fn has_pending(&self, code: Seq<char>, user: Seq<char>) -> bool {
        seq_has(self.model(), PendingModel { code, user })
    }

    /// Whether `code` is outstanding at all.
    pub open spec fn has_code(&self, code: Seq<char>) -> bool {
        exists|u: Seq<char>| #[trigger] self.has_pending(code, u)
    }

    pub fn new() -> (r: VerifyCache)
        ensures
            forall|c: Seq<char>, u: Seq<char>| !(#[trigger] r.has_pending(c, u)),
    {
        VerifyCache { pending: Vec::new() }
    }

    /// Registers a code for a subject. A code is a key: registering an
    /// existing code replaces whatever subject it pointed at.
    pub fn add(&mut self, query: VerifyCacheQuery)
        ensures
            final(self).has_pending(query.code@, query.user_id@),
            forall|c: Seq<char>, u: Seq<char>|
                #[trigger] final(self).has_pending(c, u) <==> ((old(self).has_pending(c, u) && c
                    != query.code@) || (c == query.code@ && u == query.user_id@)),
    {
        let ghost e = PendingModel { code: query.code@, user: query.user_id@ };
        self.remove_code(&query.code);
        let ghost mid_cache = *self;
        let ghost mid = self.model();
        self.pending.push(Pending { code: query.code, user_id: query.user_id });
        proof {
            assert(self.model() =~= mid.push(e));
            assert forall|c: Seq<char>, u: Seq<char>|
                #[trigger] self.has_pending(c, u) <==> (mid_cache.has_pending(c, u) || (c == e.code
                    && u == e.user)) by {
                lemma_seq_has_push(mid, e, PendingModel { code: c, user: u });
                assert(mid_cache.has_pending(c, u) == seq_has(
                    mid,
                    PendingModel { code: c, user: u },
                ));
            }
            assert(self.model()[mid.len() as int] == e);
        }
    }

    /// Atomic read-and-delete: hands back the subject the code was issued to,
    /// if the code was outstanding, and in either case the code is gone.
    pub fn permit(&mut self, code: &str) -> (r: Option<String>)
        ensures
            r is Some <==> old(self).has_code(code@),
            r matches Some(u) ==> old(self).has_pending(code@, u@),
            forall|c: Seq<char>, u: Seq<char>|
                #[trigger] final(self).has_pending(c, u) <==> (old(self).has_pending(c, u) && c
                    != code@),
    {
        let target = String::from_str(code);
        let found = match self.find_code(&target) {
            Some(i) => {
                proof {
                    assert(old(self).has_pending(code@, old(self).model()[i as int].user));
                }
                Some(self.pending[i].user_id.clone())
            },
            None => None,
        };
        self.remove_code(&target);
        proof {
            if old(self).has_code(code@) {
                let u = choose|u: Seq<char>| #[trigger] old(self).has_pending(code@, u);
                let j = choose|j: int|
                    0 <= j < old(self).model().len() && old(self).model()[j] == (PendingModel {
                        code: code@,
                        user: u,
                    });
                assert(old(self).model()[j].code == code@);
                assert(found is Some);
            }
        }
        found
    }

    /// Index of the first entry under `code`.
    fn find_code(&self, code: &String) -> (r: Option<usize>)
        ensures
            r matches Some(i) ==> i < self.model().len() && self.model()[i as int].code == code@,
            r is None ==> forall|j: int|
                0 <= j < self.model().len() ==> (#[trigger] self.model()[j]).code != code@,
    {
        let n = self.pending.len();
        let mut i: usize = 0;
        while i < n
            invariant
                0 <= i <= n,
                n == self.model().len(),
                forall|j: int| 0 <= j < i ==> (#[trigger] self.model()[j]).code != code@,
            decreases n - i,
        {
            proof {
                assert(self.model()[i as int] == self.pending@[i as int].model());
            }
            if self.pending[i].code == *code {
                return Some(i);
            }
            i = i + 1;
        }
        None
    }

    /// Removes every entry under `code`.
    fn remove_code(&mut self, code: &String)
        ensures
            forall|c: Seq<char>, u: Seq<char>|
                #[trigger] final(self).has_pending(c, u) <==> (old(self).has_pending(c, u) && c
                    != code@),
        decreases old(self).spec_len(),
    {
        let i = match self.find_code(code) {
            Some(i) => i,
            None => {
                return ;
            },
        };
        let ghost pre = self.model();
        self.pending.remove(i);
        proof {
            assert(self.model() =~= pre.remove(i as int));
            assert forall|c: Seq<char>, u: Seq<char>|
                ((c != code@) ==> (#[trigger] self.has_pending(c, u) <==> seq_has(
                    pre,
                    PendingModel { code: c, user: u },
                ))) && (self.has_pending(c, u) ==> seq_has(pre, PendingModel { code: c, user: u }))
                by {
                lemma_seq_has_remove(pre, i as int, PendingModel { code: c, user: u });
            }
        }
        self.remove_code(code);
    }
}

} // verus!
