//! Worker bookkeeping shared by the process backends: the routing table that
//! matches worker responses to waiting requests, the limiter that hands out
//! generation slots, and the Windows working-set bounds.
use vstd::prelude::*;

use std::collections::{HashMap, HashSet};

use crate::config::concat_str;
use crate::error::{invalid_config, is_error_of, is_invalid_config, EngineError, MessageKind, Result};
use crate::text::{decimal, str_eq, u64_to_decimal};

verus! {

/// Smallest working set a contained Windows worker may be given.
pub const WINDOWS_MINIMUM_WORKING_SET_BYTES: usize = 1048576;

/// The working-set range `(minimum, maximum)` for a Windows worker limited
/// to `bytes`.
pub fn windows_worker_working_set_bounds(bytes: u64) -> (r: Result<(usize, usize)>)
    ensures
        bytes > usize::MAX ==> is_invalid_config(
            r,
            "Windows worker memory limit "@ + decimal(bytes as nat)
                + " exceeds this process address size"@,
        ),
        bytes <= usize::MAX && bytes < WINDOWS_MINIMUM_WORKING_SET_BYTES ==> is_invalid_config(
            r,
            "Windows worker memory limit "@ + decimal(bytes as nat)
                + " is below the minimum supported working set of 1048576 bytes"@,
        ),
        bytes <= usize::MAX && bytes >= WINDOWS_MINIMUM_WORKING_SET_BYTES ==> r == Ok::<
            (usize, usize),
            EngineError,
        >((WINDOWS_MINIMUM_WORKING_SET_BYTES, bytes as usize)),
{
    if bytes > usize::MAX as u64 {
        let m = concat_str("Windows worker memory limit ", u64_to_decimal(bytes).as_str());
        return Err(
            EngineError::InvalidConfig(concat_str(m.as_str(), " exceeds this process address size")),
        );
    }
    let maximum = bytes as usize;
    if maximum < WINDOWS_MINIMUM_WORKING_SET_BYTES {
        let m = concat_str("Windows worker memory limit ", u64_to_decimal(bytes).as_str());
        return Err(
            EngineError::InvalidConfig(
                concat_str(
                    m.as_str(),
                    " is below the minimum supported working set of 1048576 bytes",
                ),
            ),
        );
    }
    Ok((WINDOWS_MINIMUM_WORKING_SET_BYTES, maximum))
}

/// What to do with one message from a worker.
#[derive(Debug, PartialEq, Eq)]
pub enum RouteDecision {
    /// Hand the message to the waiting request `id`; `terminal` when it is the
    /// last message of that request.
    Deliver { id: u64, terminal: bool },
    /// Drop the message: its request was abandoned.
    Ignore,
    /// The worker failed: every listed request receives `failure`.
    FailAll { failure: String, notify: HashSet<u64> },
}

/// How handing a message to its request went.
#[derive(Clone, Copy, Debug, PartialEq, Eq, Structural)]
pub enum SendOutcome {
    Sent,
    Disconnected,
    Full,
}

/// Which requests wait for a worker's responses. `routes` are the requests
/// that wait; `abandoned` those whose waiter left before their last message;
/// `route_failures` the overflow message of each request whose bounded route
/// filled up; `failure` the first failure of the worker, after which nothing
/// is routed.
pub struct WorkerRouter {
    pub routes: HashSet<u64>,
    pub abandoned: HashSet<u64>,
    pub route_failures: HashMap<u64, String>,
    pub failure: Option<String>,
}

/// The message a request receives when its route overflowed.
pub open spec fn overflow_message(id: u64) -> Seq<char> {
    "vLLM request "@ + decimal(id as nat) + " exceeded its bounded response route capacity"@
}

/// The message of a duplicate registration.
pub open spec fn duplicate_message(id: u64) -> Seq<char> {
    "duplicate active vLLM worker request id "@ + decimal(id as nat)
}

/// The failure for a response to a request nobody waits for.
pub open spec fn unknown_id_message(id: u64) -> Seq<char> {
    "vLLM backend worker returned an unknown request id "@ + decimal(id as nat)
}

/// The overflow message of `id`, as recorded.
fn overflow_text(id: u64) -> (r: String)
    ensures
        r@ == overflow_message(id),
{
    let m = concat_str("vLLM request ", u64_to_decimal(id).as_str());
    concat_str(m.as_str(), " exceeded its bounded response route capacity")
}

impl WorkerRouter {
    /// Each recorded overflow holds the overflow message of its request.
    pub open spec fn wf(&self) -> bool {
        forall|id: u64| #[trigger]
            self.route_failures@.contains_key(id) ==> self.route_failures@[id]@
                == overflow_message(id)
    }

    pub open spec fn routes_set(&self) -> Set<u64> {
        self.routes@
    }

    pub open spec fn abandoned_set(&self) -> Set<u64> {
        self.abandoned@
    }

    pub open spec fn overflowed_set(&self) -> Set<u64> {
        self.route_failures@.dom()
    }

    pub open spec fn failure_view(&self) -> Option<Seq<char>> {
        crate::artifact::opt_view(self.failure)
    }

    /// A router with no requests and no failure.
    pub fn new() -> (r: Self)
        ensures
            r.wf(),
            r.routes_set().is_empty(),
            r.abandoned_set().is_empty(),
            r.overflowed_set().is_empty(),
            r.failure is None,
    {
        WorkerRouter {
            routes: HashSet::new(),
            abandoned: HashSet::new(),
            route_failures: HashMap::new(),
            failure: None,
        }
    }

    /// No request waits, none is pending cleanup, and the worker has not failed.
    pub fn is_idle(&self) -> (r: bool)
        ensures
            r == (self.failure is None && self.routes_set().is_empty()
                && self.abandoned_set().is_empty() && self.overflowed_set().is_empty()),
    {
        broadcast use vstd::std_specs::hash::group_hash_axioms;

        proof {
            assert(self.route_failures@.is_empty() <==> self.overflowed_set().is_empty()) by {
                if self.overflowed_set().is_empty() {
                    assert(self.route_failures@ =~= Map::empty());
                }
            }
        }
        self.failure.is_none() && self.routes.is_empty() && self.abandoned.is_empty()
            && self.route_failures.is_empty()
    }

    /// Registers request `id`: refused after a failure (with that failure)
    /// and for an id that is still in use.
    pub fn register(&mut self, id: u64) -> (r: Result<()>)
        requires
            old(self).wf(),
        ensures
            final(self).wf(),
            match old(self).failure_view() {
                Some(f) => is_error_of(r, MessageKind::Vllm, f) && *final(self) == *old(self),
                None => if old(self).routes_set().contains(id) || old(self).abandoned_set().contains(
                    id,
                ) || old(self).overflowed_set().contains(id) {
                    is_error_of(r, MessageKind::Vllm, duplicate_message(id)) && *final(self)
                        == *old(self)
                } else {
                    &&& r is Ok
                    &&& final(self).routes_set() == old(self).routes_set().insert(id)
                    &&& final(self).abandoned == old(self).abandoned
                    &&& final(self).route_failures == old(self).route_failures
                    &&& final(self).failure == old(self).failure
                },
            },
    {
        broadcast use vstd::std_specs::hash::group_hash_axioms;

        if let Some(f) = &self.failure {
            return Err(EngineError::Vllm(f.clone()));
        }
        if self.routes.contains(&id) || self.abandoned.contains(&id)
            || self.route_failures.contains_key(&id) {
            return Err(
                EngineError::Vllm(
                    concat_str(
                        "duplicate active vLLM worker request id ",
                        u64_to_decimal(id).as_str(),
                    ),
                ),
            );
        }
        self.routes.insert(id);
        Ok(())
    }

    /// Forgets request `id` entirely.
    pub fn unregister(&mut self, id: u64)
        requires
            old(self).wf(),
        ensures
            final(self).wf(),
            final(self).routes_set() == old(self).routes_set().remove(id),
            final(self).abandoned_set() == old(self).abandoned_set().remove(id),
            final(self).route_failures@ == old(self).route_failures@.remove(id),
            final(self).failure == old(self).failure,
    {
        broadcast use vstd::std_specs::hash::group_hash_axioms;

        self.routes.remove(&id);
        self.abandoned.remove(&id);
        self.route_failures.remove(&id);
    }

    /// The waiter of `id` left early: its remaining messages are dropped
    /// (unless the worker already failed).
    pub fn abandon(&mut self, id: u64)
        requires
            old(self).wf(),
        ensures
            final(self).wf(),
            final(self).routes_set() == old(self).routes_set().remove(id),
            final(self).abandoned_set() == if old(self).routes_set().contains(id)
                && old(self).failure is None {
                old(self).abandoned_set().insert(id)
            } else {
                old(self).abandoned_set()
            },
            final(self).route_failures@ == old(self).route_failures@.remove(id),
            final(self).failure == old(self).failure,
    {
        broadcast use vstd::std_specs::hash::group_hash_axioms;

        if self.routes.remove(&id) && self.failure.is_none() {
            self.abandoned.insert(id);
        }
        self.route_failures.remove(&id);
    }

    /// The worker failed: the first failure is kept, pending cleanup is
    /// dropped, and every waiting request is returned to be told.
    pub fn fail(&mut self, error: String) -> (r: (String, HashSet<u64>))
        requires
            old(self).wf(),
        ensures
            final(self).wf(),
            final(self).failure_view() == Some(
                match old(self).failure_view() {
                    Some(f) => f,
                    None => error@,
                },
            ),
            r.0@ == final(self).failure_view().unwrap(),
            r.1@ == old(self).routes_set(),
            final(self).routes_set().is_empty(),
            final(self).abandoned_set().is_empty(),
            final(self).overflowed_set().is_empty(),
    {
        let failure = match &self.failure {
            Some(f) => f.clone(),
            None => error,
        };
        self.failure = Some(failure.clone());
        self.abandoned.clear();
        self.route_failures.clear();
        let mut routes: HashSet<u64> = HashSet::new();
        std::mem::swap(&mut routes, &mut self.routes);
        (failure, routes)
    }

    /// The worker's failure, if it failed.
    pub fn failure(&self) -> (r: Option<String>)
        ensures
            crate::artifact::opt_view(r) == self.failure_view(),
    {
        crate::artifact::clone_opt_string(&self.failure)
    }

    /// The overflow of request `id`, if its route overflowed; `id` stops
    /// being abandoned or overflowed either way.
    pub fn take_route_failure(&mut self, id: u64) -> (r: Option<String>)
        requires
            old(self).wf(),
        ensures
            final(self).wf(),
            match r {
                Some(m) => old(self).overflowed_set().contains(id) && m@ == overflow_message(id),
                None => !old(self).overflowed_set().contains(id),
            },
            final(self).routes == old(self).routes,
            final(self).abandoned_set() == old(self).abandoned_set().remove(id),
            final(self).route_failures@ == old(self).route_failures@.remove(id),
            final(self).failure == old(self).failure,
    {
        broadcast use vstd::std_specs::hash::group_hash_axioms;

        self.abandoned.remove(&id);
        self.route_failures.remove(&id)
    }

    /// Decides where one worker message goes. `kind` is the message's kind
    /// (`fatal` fails the worker, `token` is a non-terminal chunk); `error`
    /// is the message's error text.
    pub fn route(&mut self, id: u64, kind: &str, error: Option<String>) -> (r: RouteDecision)
        requires
            old(self).wf(),
        ensures
            final(self).wf(),
            kind@ == "fatal"@ ==> {
                let f = match old(self).failure_view() {
                    Some(f) => f,
                    None => match crate::artifact::opt_view(error) {
                        Some(e) => e,
                        None => "vLLM engine failed behind its Python worker"@,
                    },
                };
                &&& final(self).failure_view() == Some(f)
                &&& r matches RouteDecision::FailAll { failure, notify } && failure@ == f
                    && notify@ == old(self).routes_set()
            },
            kind@ != "fatal"@ && old(self).abandoned_set().contains(id) ==> {
                &&& r == RouteDecision::Ignore
                &&& final(self).routes == old(self).routes
                &&& final(self).abandoned_set() == if kind@ == "token"@ {
                    old(self).abandoned_set()
                } else {
                    old(self).abandoned_set().remove(id)
                }
                &&& final(self).route_failures == old(self).route_failures
                &&& final(self).failure == old(self).failure
            },
            kind@ != "fatal"@ && !old(self).abandoned_set().contains(id)
                && old(self).routes_set().contains(id) ==> {
                &&& r == RouteDecision::Deliver { id, terminal: kind@ != "token"@ }
                &&& final(self).routes_set() == if kind@ == "token"@ {
                    old(self).routes_set()
                } else {
                    old(self).routes_set().remove(id)
                }
                &&& final(self).abandoned == old(self).abandoned
                &&& final(self).route_failures == old(self).route_failures
                &&& final(self).failure == old(self).failure
            },
            kind@ != "fatal"@ && !old(self).abandoned_set().contains(id)
                && !old(self).routes_set().contains(id) ==> {
                let f = match old(self).failure_view() {
                    Some(f) => f,
                    None => unknown_id_message(id),
                };
                &&& final(self).failure_view() == Some(f)
                &&& r matches RouteDecision::FailAll { failure, notify } && failure@ == f
                    && notify@ == old(self).routes_set()
            },
    {
        broadcast use vstd::std_specs::hash::group_hash_axioms;

        if str_eq(kind, "fatal") {
            let e = match error {
                Some(e) => e,
                None => "vLLM engine failed behind its Python worker".to_owned(),
            };
            let (failure, notify) = self.fail(e);
            return RouteDecision::FailAll { failure, notify };
        }
        let terminal = !str_eq(kind, "token");
        if self.abandoned.contains(&id) {
            if terminal {
                self.abandoned.remove(&id);
            }
            return RouteDecision::Ignore;
        }
        if self.routes.contains(&id) {
            if terminal {
                self.routes.remove(&id);
            }
            return RouteDecision::Deliver { id, terminal };
        }
        let m = concat_str(
            "vLLM backend worker returned an unknown request id ",
            u64_to_decimal(id).as_str(),
        );
        let (failure, notify) = self.fail(m);
        RouteDecision::FailAll { failure, notify }
    }

    /// Records how handing a message to request `id` went: a waiter that
    /// left before the last message abandons its request; a full route
    /// abandons it and records its overflow.
    pub fn record_send(&mut self, id: u64, terminal: bool, outcome: SendOutcome)
        requires
            old(self).wf(),
        ensures
            final(self).wf(),
            outcome == SendOutcome::Sent || (outcome == SendOutcome::Disconnected && terminal)
                ==> *final(self) == *old(self),
            outcome == SendOutcome::Disconnected && !terminal ==> {
                &&& final(self).routes_set() == old(self).routes_set().remove(id)
                &&& final(self).abandoned_set() == if old(self).routes_set().contains(id)
                    && old(self).failure is None {
                    old(self).abandoned_set().insert(id)
                } else {
                    old(self).abandoned_set()
                }
                &&& final(self).route_failures@ == old(self).route_failures@.remove(id)
                &&& final(self).failure == old(self).failure
            },
            outcome == SendOutcome::Full ==> {
                &&& final(self).routes_set() == old(self).routes_set().remove(id)
                &&& final(self).abandoned_set() == old(self).abandoned_set().insert(id)
                &&& final(self).overflowed_set() == old(self).overflowed_set().insert(id)
                &&& final(self).route_failures@[id]@ == overflow_message(id)
                &&& final(self).failure == old(self).failure
            },
    {
        broadcast use vstd::std_specs::hash::group_hash_axioms;

        match outcome {
            SendOutcome::Sent => {},
            SendOutcome::Disconnected => {
                if !terminal {
                    self.abandon(id);
                }
            },
            SendOutcome::Full => {
                self.routes.remove(&id);
                self.abandoned.insert(id);
                self.route_failures.insert(id, overflow_text(id));
            },
        }
    }
}

} // verus!

verus! {

/// Generation slots `0..capacity`, each held by at most one generation.
pub struct GenerationLimiter {
    pub capacity: usize,
    pub active: HashSet<usize>,
}

impl GenerationLimiter {
    /// Every held slot is below the capacity.
    pub open spec fn wf(&self) -> bool {
        &&& self.capacity >= 1
        &&& forall|s: usize| #[trigger] self.active@.contains(s) ==> s < self.capacity
    }

    /// A limiter of `capacity` free slots (at least one).
    pub fn new(capacity: usize) -> (r: Self)
        ensures
            r.wf(),
            r.capacity == if capacity < 1 { 1 } else { capacity },
            r.active@ == Set::<usize>::empty(),
    {
        let capacity = if capacity < 1 {
            1
        } else {
            capacity
        };
        GenerationLimiter { capacity, active: HashSet::new() }
    }

    pub fn capacity(&self) -> (r: usize)
        ensures
            r == self.capacity,
    {
        self.capacity
    }

    /// Takes slot `slot` when it exists and is free.
    pub fn try_acquire_slot(&mut self, slot: usize) -> (r: bool)
        requires
            old(self).wf(),
        ensures
            final(self).wf(),
            final(self).capacity == old(self).capacity,
            r == (slot < old(self).capacity && !old(self).active@.contains(slot)),
            final(self).active@ == if r {
                old(self).active@.insert(slot)
            } else {
                old(self).active@
            },
    {
        broadcast use vstd::std_specs::hash::group_hash_axioms;

        if slot >= self.capacity || self.active.contains(&slot) {
            return false;
        }
        self.active.insert(slot);
        true
    }

    /// Takes the lowest free slot, if any.
    pub fn acquire_free_slot(&mut self) -> (r: Option<usize>)
        requires
            old(self).wf(),
        ensures
            final(self).wf(),
            final(self).capacity == old(self).capacity,
            match r {
                Some(s) => {
                    &&& s < old(self).capacity
                    &&& !old(self).active@.contains(s)
                    &&& forall|j: usize| j < s ==> #[trigger] old(self).active@.contains(j)
                    &&& final(self).active@ == old(self).active@.insert(s)
                },
                None => {
                    &&& forall|j: usize|
                        j < old(self).capacity ==> #[trigger] old(self).active@.contains(j)
                    &&& final(self).active@ == old(self).active@
                },
            },
    {
        broadcast use vstd::std_specs::hash::group_hash_axioms;

        let mut i: usize = 0;
        while i < self.capacity
            invariant
                self.wf(),
                *self == *old(self),
                i <= self.capacity,
                forall|j: usize| j < i ==> #[trigger] self.active@.contains(j),
            decreases self.capacity - i,
        {
            if !self.active.contains(&i) {
                self.active.insert(i);
                return Some(i);
            }
            i = i + 1;
        }
        None
    }

    /// Gives slot `slot` back.
    pub fn release(&mut self, slot: usize)
        requires
            old(self).wf(),
        ensures
            final(self).wf(),
            final(self).capacity == old(self).capacity,
            final(self).active@ == old(self).active@.remove(slot),
    {
        broadcast use vstd::std_specs::hash::group_hash_axioms;

        self.active.remove(&slot);
    }
}

/// Releasing the slot that an acquisition took gives back the slots as they
/// were.
pub proof fn lemma_release_undoes_acquire(before: Set<usize>, slot: usize)
    requires
        !before.contains(slot),
    ensures
        before.insert(slot).remove(slot) == before,
{
    assert(before.insert(slot).remove(slot) =~= before);
}

/// Unregistering a request that was just registered gives back the routes
/// as they were.
pub proof fn lemma_unregister_undoes_register(before: WorkerRouter, id: u64)
    requires
        before.wf(),
        !before.routes_set().contains(id),
    ensures
        before.routes_set().insert(id).remove(id) == before.routes_set(),
{
    assert(before.routes_set().insert(id).remove(id) =~= before.routes_set());
}

} // verus!
