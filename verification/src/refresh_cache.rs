//! Single-use refresh markers.
//!
//! A marker is keyed by subject id and issuance timestamp; its existence
//! grants exactly one session rotation. `permit` is a read-and-delete in one
//! step, so a marker can never permit twice: the linchpin of replay
//! prevention, stated by `lemma_refresh_marker_single_use`.

use vstd::prelude::*;
use vstd::string::*;

use crate::token_cache::{seq_has, lemma_seq_has_push, lemma_seq_has_remove};

verus! {

/// A refresh grant as presented by a client: whose session, issued when.
pub struct RefreshCacheQuery {
    pub user_id: String,
    pub created_at: u64,
}

/// A stored refresh grant in its durable form, with the timestamp after
/// which the store may drop it on its own.
pub struct RefreshDocument {
    pub user_id: String,
    pub expire_stamp: u64,
}

/// The mathematical value of one marker.
pub ghost struct MarkerModel {
    pub user: Seq<char>,
    pub created: u64,
}

struct Marker {
    user_id: String,
    created_at: u64,
}

impl Marker {
    spec fn model(&self) -> MarkerModel {
        MarkerModel { user: self.user_id@, created: self.created_at }
    }
}

/// How `permit` changes the store and what it reports: true exactly when the
/// marker was present, and the marker is gone afterwards whatever it reported.
pub open spec fn spec_permit_rel(
    pre: RefreshCache,
    post: RefreshCache,
    user: Seq<char>,
    created: u64,
    r: bool,
) -> bool {
    r == pre.has_marker(user, created) && forall|u: Seq<char>, c: u64|
        #[trigger] post.has_marker(u, c) <==> (pre.has_marker(u, c) && !(u == user && c
            == created))
}

/// The set of unused refresh markers, stored in memory. Backing this record
/// with an external store (whose own expiry bounds a marker's life to the
/// refresh window) is an I/O concern outside the library.
pub struct RefreshCache {
    markers: Vec<Marker>,
}

impl RefreshCache {
    spec fn model(&self) -> Seq<MarkerModel> {
        self.markers@.map_values(|m: Marker| m.model())
    }

    /// The number of stored markers.
    pub closed spec fn spec_len(&self) -> nat {
        self.model().len()
    }

    /// Whether an unused marker for (user, created) exists.
    pub closed spec fn has_marker(&self, user: Seq<char>, created: u64) -> bool {
        seq_has(self.model(), MarkerModel { user, created })
    }

    pub fn new() -> (r: RefreshCache)
        ensures
            forall|u: Seq<char>, c: u64| !(#[trigger] r.has_marker(u, c)),
    {
        RefreshCache { markers: Vec::new() }
    }

    /// Records a fresh marker. Duplicate inserts are idempotent.
    pub fn add(&mut self, query: RefreshCacheQuery)
        ensures
            final(self).has_marker(query.user_id@, query.created_at),
            forall|u: Seq<char>, c: u64|
                #[trigger] final(self).has_marker(u, c) <==> (old(self).has_marker(u, c) || (u
                    == query.user_id@ && c == query.created_at)),
    {
        let ghost e = MarkerModel { user: query.user_id@, created: query.created_at };
        if self.find_marker(&query).is_some() {
            return ;
        }
        let ghost pre = self.model();
        self.markers.push(Marker { user_id: query.user_id, created_at: query.created_at });
        proof {
            assert(self.model() =~= pre.push(e));
            assert forall|u: Seq<char>, c: u64|
                #[trigger] self.has_marker(u, c) <==> (seq_has(
                    pre,
                    MarkerModel { user: u, created: c },
                ) || (u == e.user && c == e.created)) by {
                lemma_seq_has_push(pre, e, MarkerModel { user: u, created: c });
            }
            assert(self.model()[pre.len() as int] == e);
        }
    }

    /// Atomic read-and-delete: reports whether the marker existed, and in
    /// either case no marker for the pair remains.
    pub fn permit(&mut self, query: &RefreshCacheQuery) -> (r: bool)
        ensures
            spec_permit_rel(*old(self), *final(self), query.user_id@, query.created_at, r),
    {
        let found = self.find_marker(query).is_some();
        self.remove_marker(query);
        found
    }

    /// Index of the first marker equal to the query's pair.
    fn find_marker(&self, query: &RefreshCacheQuery) -> (r: Option<usize>)
        ensures
            r matches Some(i) ==> i < self.model().len() && self.model()[i as int] == (MarkerModel {
                user: query.user_id@,
                created: query.created_at,
            }),
            r is None ==> !self.has_marker(query.user_id@, query.created_at),
    {
        let ghost e = MarkerModel { user: query.user_id@, created: query.created_at };
        let n = self.markers.len();
        let mut i: usize = 0;
        while i < n
            invariant
                0 <= i <= n,
                n == self.model().len(),
                e == (MarkerModel { user: query.user_id@, created: query.created_at }),
                forall|j: int| 0 <= j < i ==> self.model()[j] != e,
            decreases n - i,
        {
            let m = &self.markers[i];
            proof {
                assert(self.model()[i as int] == self.markers@[i as int].model());
            }
            if m.user_id == query.user_id && m.created_at == query.created_at {
                return Some(i);
            }
            proof {
                assert(self.model()[i as int] != e);
            }
            i = i + 1;
        }
        None
    }

    /// Removes every marker equal to the query's pair.
    fn remove_marker(&mut self, query: &RefreshCacheQuery)
        ensures
            forall|u: Seq<char>, c: u64|
                #[trigger] final(self).has_marker(u, c) <==> (old(self).has_marker(u, c) && !(u
                    == query.user_id@ && c == query.created_at)),
        decreases old(self).spec_len(),
    {
        let ghost e = MarkerModel { user: query.user_id@, created: query.created_at };
        let i = match self.find_marker(query) {
            Some(i) => i,
            None => {
                return ;
            },
        };
        let ghost pre = self.model();
        self.markers.remove(i);
        proof {
            assert(self.model() =~= pre.remove(i as int));
            assert forall|u: Seq<char>, c: u64|
                ((MarkerModel { user: u, created: c } != e) ==> (#[trigger] self.has_marker(u, c)
                    <==> seq_has(pre, MarkerModel { user: u, created: c }))) && (self.has_marker(
                    u,
                    c,
                ) ==> seq_has(pre, MarkerModel { user: u, created: c })) by {
                lemma_seq_has_remove(pre, i as int, MarkerModel { user: u, created: c });
            }
        }
        self.remove_marker(query);
    }
}

/// A refresh marker, once permitted, is never permitted again for the same
/// (subject, issuance) pair: after any `permit` the marker is gone, so a
/// second `permit` for the same pair reports false — whatever the first
/// reported.
pub proof fn lemma_refresh_marker_single_use(
    s0: RefreshCache,
    s1: RefreshCache,
    s2: RefreshCache,
    user: Seq<char>,
    created: u64,
    r1: bool,
    r2: bool,
)
    requires
        spec_permit_rel(s0, s1, user, created, r1),
        spec_permit_rel(s1, s2, user, created, r2),
    ensures
        !r2,
        !(r1 && r2),
{
}

} // verus!
