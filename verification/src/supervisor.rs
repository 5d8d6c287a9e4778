//! The backend supervisor: at most one backend at a time.

use vstd::prelude::*;

verus! {

/// The supervisor's state: at most one handle to the relay task of a running
/// backend. The handle type `H` belongs to the embedding application (a task
/// handle, a cancellation token); the supervisor only stores it.
///
/// Starting is split in two guarded halves, because spawning the backend is
/// the application's work: `start_begin` decides under the lock whether a
/// spawn is owed, and `start_finish` records the spawn's outcome. Stopping is
/// one operation: `stop` clears the handle and hands it back for the caller
/// to cancel.
pub struct Supervisor<H> {
    handle: Option<H>,
}

/// The success message of a start that found a backend already running.
pub open spec fn already_running_msg() -> Seq<char> {
    "Backend already running"@
}

/// The success message of a start that spawned a backend.
pub open spec fn started_msg() -> Seq<char> {
    "Backend started"@
}

/// The success message of a stop that cleared a handle.
pub open spec fn stopped_msg() -> Seq<char> {
    "Backend stopped"@
}

/// The success message of a stop that found nothing running.
pub open spec fn not_running_msg() -> Seq<char> {
    "Backend not running"@
}

/// What `start_begin` answers in a given state: the no-op success message
/// when a backend already runs, or nothing, meaning that a spawn is owed.
pub open spec fn spec_start_begin<H>(state: Option<H>) -> Option<Seq<char>> {
    match state {
        Some(_) => Some(already_running_msg()),
        None => None::<Seq<char>>,
    }
}

/// What `start_finish` does with a spawn outcome: a successful spawn stores
/// the new handle and reports success; a failed spawn leaves the state empty
/// and reports the failure verbatim.
pub open spec fn spec_start_finish<H>(outcome: Result<H, Seq<char>>) -> (
    Option<H>,
    Result<Seq<char>, Seq<char>>,
) {
    match outcome {
        Ok(h) => (Some(h), Ok(started_msg())),
        Err(e) => (None::<H>, Err(e)),
    }
}

/// What `stop` does in a given state: the handle, if any, is cleared, and
/// both outcomes are successes.
pub open spec fn spec_stop<H>(state: Option<H>) -> (Option<H>, Seq<char>) {
    match state {
        Some(_) => (None::<H>, stopped_msg()),
        None => (None::<H>, not_running_msg()),
    }
}

/// The view of an optional message.
pub open spec fn msg_view(m: Option<String>) -> Option<Seq<char>> {
    match m {
        Some(s) => Some(s@),
        None => None::<Seq<char>>,
    }
}

/// The view of a spawn outcome.
pub open spec fn outcome_view<H>(o: Result<H, String>) -> Result<H, Seq<char>> {
    match o {
        Ok(h) => Ok(h),
        Err(e) => Err(e@),
    }
}

/// The view of an operation's result.
pub open spec fn result_view(r: Result<String, String>) -> Result<Seq<char>, Seq<char>> {
    match r {
        Ok(s) => Ok(s@),
        Err(e) => Err(e@),
    }
}

impl<H> Supervisor<H> {
    /// The handle held for the running backend, if one runs.
    pub closed spec fn handle(self) -> Option<H> {
        self.handle
    }

    /// Whether a backend is currently considered running.
    pub open spec fn running(self) -> bool {
        self.handle() is Some
    }

    /// A fresh supervisor: nothing runs.
    pub fn new() -> (s: Self)
        ensures
            !s.running(),
    {
        Supervisor { handle: None }
    }

    pub fn is_running(&self) -> (r: bool)
        ensures
            r == self.running(),
    {
        self.handle.is_some()
    }

    /// The first half of start: decide, without side effects, whether a
    /// backend must be spawned. `Some` carries the no-op success message and
    /// means that one already runs, so no second backend is to be spawned;
    /// `None` obliges the caller to spawn and then call `start_finish`.
    pub fn start_begin(&self) -> (r: Option<String>)
        ensures
            msg_view(r) == spec_start_begin(self.handle()),
            r is None <==> !self.running(),
    {
        if self.handle.is_some() {
            Some("Backend already running".to_string())
        } else {
            None
        }
    }

    /// The second half of start: record the outcome of the spawn attempt. A
    /// success stores the relay task's handle — exactly the one spawned — and
    /// a failure leaves the supervisor untouched and is reported verbatim.
    pub fn start_finish(&mut self, outcome: Result<H, String>) -> (r: Result<String, String>)
        requires
            !old(self).running(),
        ensures
            final(self).handle() == spec_start_finish(outcome_view(outcome)).0,
            result_view(r) == spec_start_finish(outcome_view(outcome)).1,
    {
        match outcome {
            Ok(h) => {
                self.handle = Some(h);
                Ok("Backend started".to_string())
            },
            Err(e) => Err(e),
        }
    }

    /// Stop: clear the handle. Both outcomes are successes; the second
    /// component is the cleared handle, for the caller to cancel its task.
    pub fn stop(&mut self) -> (r: (String, Option<H>))
        ensures
            final(self).handle() == spec_stop(old(self).handle()).0,
            r.0@ == spec_stop(old(self).handle()).1,
            r.1 == old(self).handle(),
    {
        match self.handle.take() {
            Some(h) => ("Backend stopped".to_string(), Some(h)),
            None => ("Backend not running".to_string(), None),
        }
    }
}

/// Starting when nothing runs is owed a spawn, and a successful spawn leaves
/// exactly the new handle in the state, with the success message.
pub proof fn lemma_start_when_stopped<H>(state: Option<H>, h: H)
    requires
        state is None,
    ensures
        spec_start_begin::<H>(state) is None,
        spec_start_finish::<H>(Ok(h)).0 == Some(h),
        spec_start_finish::<H>(Ok(h)).1 == Ok::<Seq<char>, Seq<char>>(started_msg()),
{
}

/// Starting while a backend runs is a no-op: it answers the success message
/// "Backend already running" at once, so nothing is spawned and the stored
/// handle stays as it is.
pub proof fn lemma_start_when_running_is_noop<H>(state: Option<H>)
    requires
        state is Some,
    ensures
        spec_start_begin::<H>(state) == Some(already_running_msg()),
{
}

/// A failed spawn is reported verbatim and leaves the supervisor without a
/// handle.
pub proof fn lemma_start_spawn_failure<H>(e: Seq<char>)
    ensures
        spec_start_finish::<H>(Err(e)).0 is None,
        spec_start_finish::<H>(Err(e)).1 == Err::<Seq<char>, Seq<char>>(e),
{
}

/// Stopping clears the handle and reports success; stopping again right away
/// reports "Backend not running", again as a success, never as an error.
pub proof fn lemma_stop_twice<H>(state: Option<H>)
    ensures
        spec_stop::<H>(state).0 is None,
        state is Some ==> spec_stop::<H>(state).1 == stopped_msg(),
        spec_stop::<H>(spec_stop::<H>(state).0).1 == not_running_msg(),
{
}

} // verus!
