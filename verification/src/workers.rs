//! The crypto worker pool's task logic and its bounded dispatch queue.
//!
//! Password hashing is deliberately slow, so it runs on dedicated worker
//! threads fed through a bounded queue: when the queue is full a new
//! submission is parked — backpressure, never unbounded growth and never a
//! spurious failure — and parked submissions move up, in order, as workers
//! drain the queue. Only a closed pool refuses work. The thread and channel
//! plumbing is an I/O concern outside the library; the queue's behaviour and
//! the per-task computations are fixed here.

use vstd::prelude::*;
use vstd::string::*;

verus! {

/// How many threads serve one task kind, and how deep its queue is.
pub struct WorkerSpec {
    pub threads: usize,
    pub buffer: usize,
}

/// Pool sizing per task kind.
pub struct WorkersAllocate {
    pub hash_pass: WorkerSpec,
    pub verify_pass: WorkerSpec,
    pub verify_email: WorkerSpec,
}

/// A password-verification task: the candidate password and the stored hash.
pub struct VerifyPassRequest {
    pub password: String,
    pub hash: String,
}

/// An email-verification task: where to send which code.
pub struct VerifyEmailRequest {
    pub email: String,
    pub verify_code: String,
}

/// Whether the text is a well-formed PHC hash string.
pub uninterp spec fn phc_parses(hash: Seq<char>) -> bool;

/// Whether argon2 verification of `password` against `hash` succeeds.
pub uninterp spec fn password_verifies(password: Seq<char>, hash: Seq<char>) -> bool;

/// Relies on argon2's `PasswordHash::new` and `verify_password`: both are
/// functions of the password and hash text alone. A hash that does not parse
/// yields no verdict; a parsed hash yields the verification outcome.
#[verifier::external_body]
fn argon2_verify(password: &str, hash: &str) -> (r: Option<bool>)
    ensures
        r is Some <==> phc_parses(hash@),
        r matches Some(b) ==> b == password_verifies(password@, hash@),
{
    let hasher = argon2::Argon2::default();
    match argon2::PasswordHash::new(hash) {
        Ok(parsed) => Some(
            argon2::PasswordVerifier::verify_password(&hasher, password.as_bytes(), &parsed)
                .is_ok(),
        ),
        Err(_) => None,
    }
}

/// Relies on argon2's `hash_password` with a random salt: the returned PHC
/// string parses, and verifying the same password against it succeeds. The
/// salt is random, so nothing else is assumed of the string.
#[verifier::external_body]
fn argon2_hash(password: &str) -> (r: Option<String>)
    ensures
        r matches Some(h) ==> phc_parses(h@) && password_verifies(password@, h@),
{
    let hasher = argon2::Argon2::default();
    match argon2::PasswordHasher::hash_password(&hasher, password.as_bytes()) {
        Ok(h) => Some(h.to_string()),
        Err(_) => None,
    }
}

/// One hashing task: hashes the password, or reports no result rather than
/// failing the worker. A returned hash always verifies against the password
/// it was made from.
pub fn hash_task(password: &str) -> (r: Option<String>)
    ensures
        r matches Some(h) ==> phc_parses(h@) && password_verifies(password@, h@),
{
    argon2_hash(password)
}

/// One verification task: checks the candidate password against the stored
/// hash. A malformed stored hash yields no verdict — explicitly, never by a
/// panic — so the worker thread survives and keeps serving.
pub fn verify_task(request: &VerifyPassRequest) -> (r: Option<bool>)
    ensures
        r is Some <==> phc_parses(request.hash@),
        r matches Some(b) ==> b == password_verifies(request.password@, request.hash@),
{
    argon2_verify(request.password.as_str(), request.hash.as_str())
}

/// What became of a submission.
#[derive(Clone, Copy, PartialEq, Eq, Structural, Debug)]
pub enum SubmitOutcome {
    /// Accepted straight into the queue.
    Enqueued,
    /// The queue is at capacity: the submission is parked, not refused, and
    /// moves into the queue as workers drain it.
    Suspended,
    /// The pool is shut down; callers must treat this as a hard internal
    /// error, not a user-facing validation failure.
    Unavailable,
}

/// The bounded dispatch queue for one task kind: an accepted queue of at most
/// `capacity` tasks, the parked submissions behind it, and the closed flag.
pub struct DispatchQueue<T> {
    capacity: usize,
    queue: Vec<T>,
    parked: Vec<T>,
    closed: bool,
}

impl<T> DispatchQueue<T> {
    /// All tasks that have been accepted and not yet taken, in submission
    /// order: the queued ones first, then the parked ones.
    pub closed spec fn pending(&self) -> Seq<T> {
        self.queue@ + self.parked@
    }

    pub closed spec fn spec_capacity(&self) -> nat {
        self.capacity as nat
    }

    pub closed spec fn is_closed(&self) -> bool {
        self.closed
    }

    /// The queue holds as many pending tasks as fit under the capacity (at
    /// least one task fits); the rest are parked.
    pub closed spec fn wf(&self) -> bool {
        &&& self.capacity >= 1
        &&& self.queue@.len() == if self.pending().len() < self.spec_capacity() {
            self.pending().len()
        } else {
            self.spec_capacity()
        }
    }

    pub fn new(capacity: usize) -> (r: DispatchQueue<T>)
        requires
            capacity >= 1,
        ensures
            r.wf(),
            r.pending() == Seq::<T>::empty(),
            r.spec_capacity() == capacity,
            !r.is_closed(),
    {
        let r = DispatchQueue { capacity, queue: Vec::new(), parked: Vec::new(), closed: false };
        proof {
            assert(r.pending() =~= Seq::<T>::empty());
        }
        r
    }

    /// Submits a task. On an open pool the task is always retained — queued
    /// under the capacity, parked at capacity (cooperative backpressure,
    /// never a failure and never unbounded growth). Only a closed pool
    /// refuses, and then nothing changes.
    pub fn submit(&mut self, task: T) -> (r: SubmitOutcome)
        requires
            old(self).wf(),
        ensures
            final(self).wf(),
            final(self).spec_capacity() == old(self).spec_capacity(),
            final(self).is_closed() == old(self).is_closed(),
            old(self).is_closed() ==> r == SubmitOutcome::Unavailable && final(self).pending()
                == old(self).pending(),
            !old(self).is_closed() ==> final(self).pending() == old(self).pending().push(task),
            !old(self).is_closed() ==> (r == SubmitOutcome::Enqueued <==> old(
                self,
            ).pending().len() < old(self).spec_capacity()),
            !old(self).is_closed() && old(self).pending().len() >= old(self).spec_capacity() ==> r
                == SubmitOutcome::Suspended,
    {
        if self.closed {
            return SubmitOutcome::Unavailable;
        }
        if self.queue.len() < self.capacity {
            proof {
                assert(old(self).parked@.len() == 0);
            }
            self.queue.push(task);
            proof {
                assert(self.pending() =~= old(self).pending().push(task));
            }
            SubmitOutcome::Enqueued
        } else {
            self.parked.push(task);
            proof {
                assert(self.pending() =~= old(self).pending().push(task));
            }
            SubmitOutcome::Suspended
        }
    }

    /// Hands the oldest pending task to a worker, and moves the oldest parked
    /// submission into the freed queue slot: parked submissions complete once
    /// workers drain the queue.
    pub fn take(&mut self) -> (r: Option<T>)
        requires
            old(self).wf(),
        ensures
            final(self).wf(),
            final(self).spec_capacity() == old(self).spec_capacity(),
            final(self).is_closed() == old(self).is_closed(),
            old(self).pending().len() == 0 ==> r is None && final(self).pending() == old(
                self,
            ).pending(),
            old(self).pending().len() > 0 ==> (r matches Some(t) && t == old(self).pending()[0]
                && final(self).pending() == old(self).pending().drop_first()),
    {
        if self.queue.len() == 0 {
            proof {
                assert(old(self).pending().len() == 0);
                assert(self.pending() =~= old(self).pending());
            }
            return None;
        }
        let task = self.queue.remove(0);
        if self.parked.len() > 0 && self.queue.len() < self.capacity {
            let promoted = self.parked.remove(0);
            self.queue.push(promoted);
        }
        proof {
            assert(task == old(self).pending()[0]);
            assert(self.pending() =~= old(self).pending().drop_first());
        }
        Some(task)
    }

    /// Shuts the pool down: nothing pending is lost, but every further
    /// submission reports `Unavailable`.
    pub fn close(&mut self)
        requires
            old(self).wf(),
        ensures
            final(self).wf(),
            final(self).spec_capacity() == old(self).spec_capacity(),
            final(self).pending() == old(self).pending(),
            final(self).is_closed(),
    {
        self.closed = true;
    }
}

} // verus!
