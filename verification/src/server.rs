//! Shutdown coordinator: the decision core of the serving loop.
//!
//! The running server multiplexes three event sources — an accepted
//! connection, an interrupt signal, a terminate signal — and later
//! races connection draining against a timeout. Everything the loop
//! decides is concentrated here as a state machine over three phases:
//! `Accepting` (connections admitted and tracked), `Draining` (the
//! listener is closed, tracked connections run on), and `Stopped`
//! (shutdown hooks run, strictly in registration order). The loop
//! around it only performs the I/O that each decision calls for.

use vstd::prelude::*;

verus! {

/// The lifecycle phase of the server.
#[derive(PartialEq, Eq, Structural, Clone, Copy, Debug)]
pub enum Phase {
    /// New connections are admitted and tracked.
    Accepting,
    /// The listener is closed; tracked connections may finish.
    Draining,
    /// Draining has concluded; only shutdown hooks remain.
    Stopped,
}

/// The two shutdown signals the server listens for.
#[derive(PartialEq, Eq, Structural, Clone, Copy, Debug)]
pub enum Signal {
    /// An interrupt from the terminal.
    Interrupt,
    /// A termination request from the system.
    Terminate,
}

/// What the serving loop must do after a signal event.
#[derive(PartialEq, Eq, Structural, Clone, Copy, Debug)]
pub enum Action {
    /// Close the listening socket and leave the accept loop.
    CloseListener,
    /// Nothing: the event has no effect in the current phase.
    IgnoreEvent,
}

/// The outcome of one poll of the draining race.
#[derive(PartialEq, Eq, Structural, Clone, Copy, Debug)]
pub enum DrainStatus {
    /// Every tracked connection finished in time.
    Drained,
    /// The timeout won; the remaining connections are abandoned.
    TimedOut,
    /// Connections remain and the timeout has not elapsed.
    StillDraining,
}

/// The shutdown coordinator's state.
pub struct Coordinator {
    /// Current phase.
    pub phase: Phase,
    /// Source of fresh connection identifiers.
    pub next_conn: u64,
    /// Identifiers of tracked in-flight connections.
    pub inflight: Vec<u64>,
    /// How many shutdown hooks are registered.
    pub hooks: usize,
    /// How many shutdown hooks have completed.
    pub hooks_run: usize,
    /// How many connections were abandoned at the drain timeout.
    pub abandoned: usize,
    /// The indices of the hooks completed so far, in completion order.
    pub hook_log: Ghost<Seq<int>>,
}

/// Coordinator well-formedness: tracked identifiers are distinct and
/// below the id source, hooks never run beyond the registered count
/// or before the `Stopped` phase, and the completion log is exactly
/// the registration prefix in order.
pub open spec fn coordinator_wf(c: Coordinator) -> bool {
    &&& forall|i: int, j: int|
        0 <= i < j < c.inflight@.len() ==> c.inflight@[i] != c.inflight@[j]
    &&& forall|i: int| 0 <= i < c.inflight@.len() ==> #[trigger] c.inflight@[i] < c.next_conn
    &&& c.hooks_run <= c.hooks
    &&& c.hook_log@ == Seq::new(c.hooks_run as nat, |i: int| i)
    &&& (c.hooks_run > 0 ==> c.phase == Phase::Stopped)
}

/// The state after a shutdown signal, and the action it demands.
/// Both signals are treated identically: this function does not look
/// at which one arrived.
pub open spec fn spec_signal_step(c: Coordinator, s: Signal) -> (Coordinator, Action) {
    if c.phase == Phase::Accepting {
        (Coordinator { phase: Phase::Draining, ..c }, Action::CloseListener)
    } else {
        (c, Action::IgnoreEvent)
    }
}

/// The state after one poll of the draining race.
pub open spec fn spec_poll_step(c: Coordinator, timed_out: bool) -> (Coordinator, DrainStatus) {
    if c.inflight@.len() == 0 {
        (Coordinator { phase: Phase::Stopped, ..c }, DrainStatus::Drained)
    } else if timed_out {
        (
            Coordinator {
                phase: Phase::Stopped,
                inflight: c.inflight,
                abandoned: c.inflight@.len() as usize,
                ..c
            },
            DrainStatus::TimedOut,
        )
    } else {
        (c, DrainStatus::StillDraining)
    }
}

impl Coordinator {
    /// A coordinator for a server with `hooks` registered shutdown
    /// hooks, about to start accepting.
    pub fn new(hooks: usize) -> (c: Coordinator)
        ensures
            coordinator_wf(c),
            c.phase == Phase::Accepting,
            c.inflight@ == Seq::<u64>::empty(),
            c.hooks == hooks,
            c.hooks_run == 0,
            c.abandoned == 0,
            c.next_conn == 0,
    {
        let c = Coordinator {
            phase: Phase::Accepting,
            next_conn: 0,
            inflight: Vec::new(),
            hooks,
            hooks_run: 0,
            abandoned: 0,
            hook_log: Ghost(Seq::empty()),
        };
        proof {
            assert(c.hook_log@ =~= Seq::new(0, |i: int| i));
        }
        c
    }

    /// Admits a new connection while accepting: returns a fresh
    /// identifier and tracks it. Once the listener is closed no
    /// connection is admitted.
    pub fn on_accept(&mut self) -> (r: Option<u64>)
        requires
            coordinator_wf(*old(self)),
            old(self).next_conn < u64::MAX,
        ensures
            coordinator_wf(*final(self)),
            match r {
                Some(id) => {
                    &&& old(self).phase == Phase::Accepting
                    &&& id == old(self).next_conn
                    &&& final(self).inflight@ == old(self).inflight@.push(id)
                    &&& final(self).next_conn == old(self).next_conn + 1
                    &&& *final(self) == Coordinator {
                        next_conn: final(self).next_conn,
                        inflight: final(self).inflight,
                        ..*old(self)
                    }
                },
                None => old(self).phase != Phase::Accepting && *final(self) == *old(self),
            },
    {
        match self.phase {
            Phase::Accepting => {
                let id = self.next_conn;
                self.next_conn = self.next_conn + 1;
                self.inflight.push(id);
                Some(id)
            },
            _ => None,
        }
    }

    /// Reacts to a shutdown signal. In `Accepting` the listener is
    /// closed and draining begins; during `Draining` or after
    /// `Stopped` a further signal has no effect. Interrupt and
    /// terminate are treated identically, and the tracked
    /// connections are untouched either way.
    pub fn on_signal(&mut self, s: Signal) -> (a: Action)
        requires
            coordinator_wf(*old(self)),
        ensures
            coordinator_wf(*final(self)),
            (*final(self), a) == spec_signal_step(*old(self), s),
            final(self).inflight@ == old(self).inflight@,
    {
        match self.phase {
            Phase::Accepting => {
                self.phase = Phase::Draining;
                Action::CloseListener
            },
            _ => Action::IgnoreEvent,
        }
    }

    /// Untracks a connection that has finished serving. Unknown
    /// identifiers are ignored.
    pub fn on_connection_closed(&mut self, id: u64)
        requires
            coordinator_wf(*old(self)),
        ensures
            coordinator_wf(*final(self)),
            final(self).phase == old(self).phase,
            final(self).hooks == old(self).hooks,
            final(self).hooks_run == old(self).hooks_run,
            final(self).abandoned == old(self).abandoned,
            final(self).next_conn == old(self).next_conn,
            !old(self).inflight@.contains(id) ==> final(self).inflight@
                == old(self).inflight@,
            old(self).inflight@.contains(id) ==> {
                &&& final(self).inflight@.len() + 1 == old(self).inflight@.len()
                &&& !final(self).inflight@.contains(id)
                &&& forall|x: u64|
                    x != id ==> (final(self).inflight@.contains(x) <==> old(
                        self,
                    ).inflight@.contains(x))
            },
    {
        let n = self.inflight.len();
        let mut i: usize = 0;
        while i < n
            invariant
                i <= n,
                *self == *old(self),
                coordinator_wf(*self),
                n == self.inflight@.len(),
                forall|j: int| 0 <= j < i ==> self.inflight@[j] != id,
            decreases n - i,
        {
            if self.inflight[i] == id {
                let ghost before = self.inflight@;
                self.inflight.remove(i);
                proof {
                    assert(before[i as int] == id);
                    assert forall|x: u64|
                        x != id implies (self.inflight@.contains(x) <==> before.contains(
                        x,
                    )) by {
                        if before.contains(x) {
                            let w = choose|w: int| 0 <= w < before.len() && before[w] == x;
                            if w < i {
                                assert(self.inflight@[w] == x);
                            } else {
                                assert(w > i);
                                assert(self.inflight@[w - 1] == x);
                            }
                        }
                        if self.inflight@.contains(x) {
                            let w = choose|w: int|
                                0 <= w < self.inflight@.len() && self.inflight@[w] == x;
                            if w < i {
                                assert(before[w] == x);
                            } else {
                                assert(before[w + 1] == x);
                            }
                        }
                    }
                    assert forall|j: int|
                        0 <= j < self.inflight@.len() implies self.inflight@[j] != id by {
                        if j < i {
                            assert(before[j] == self.inflight@[j]);
                        } else {
                            assert(before[j + 1] == self.inflight@[j]);
                        }
                    }
                    assert(!self.inflight@.contains(id));
                }
                return ;
            }
            i = i + 1;
        }
        proof {
            assert(!self.inflight@.contains(id));
        }
    }

    /// One poll of the draining race. Draining ends when every
    /// tracked connection has finished, or at the timeout, whichever
    /// comes first; at the timeout the remaining connections are
    /// abandoned and counted, and the server stops waiting.
    pub fn poll_drain(&mut self, timed_out: bool) -> (r: DrainStatus)
        requires
            coordinator_wf(*old(self)),
            old(self).phase == Phase::Draining,
        ensures
            coordinator_wf(*final(self)),
            (*final(self), r) == spec_poll_step(*old(self), timed_out),
            timed_out ==> final(self).phase == Phase::Stopped,
    {
        if self.inflight.len() == 0 {
            self.phase = Phase::Stopped;
            DrainStatus::Drained
        } else if timed_out {
            self.abandoned = self.inflight.len();
            self.phase = Phase::Stopped;
            DrainStatus::TimedOut
        } else {
            DrainStatus::StillDraining
        }
    }

    /// Hands out the next shutdown hook to run, in registration
    /// order, one at a time: hook `k` is returned only after hooks
    /// `0 .. k` have all been returned, and the caller awaits each
    /// before asking again. `None` once every hook has run.
    pub fn next_hook(&mut self) -> (r: Option<usize>)
        requires
            coordinator_wf(*old(self)),
            old(self).phase == Phase::Stopped,
        ensures
            coordinator_wf(*final(self)),
            match r {
                Some(k) => {
                    &&& old(self).hooks_run < old(self).hooks
                    &&& k == old(self).hooks_run
                    &&& final(self).hooks_run == old(self).hooks_run + 1
                    &&& final(self).hook_log@ == old(self).hook_log@.push(k as int)
                    &&& final(self).phase == old(self).phase
                    &&& final(self).inflight@ == old(self).inflight@
                    &&& final(self).hooks == old(self).hooks
                    &&& final(self).abandoned == old(self).abandoned
                },
                None => old(self).hooks_run == old(self).hooks && *final(self) == *old(self),
            },
    {
        if self.hooks_run < self.hooks {
            let k = self.hooks_run;
            self.hooks_run = k + 1;
            proof {
                self.hook_log@ = self.hook_log@.push(k as int);
                assert(self.hook_log@ =~= Seq::new(self.hooks_run as nat, |i: int| i));
            }
            Some(k)
        } else {
            None
        }
    }
}

// ---------------------------------------------------------------------
// Laws of shutdown
// ---------------------------------------------------------------------

/// Shutdown hooks complete strictly in registration order: the
/// completion log of any well-formed coordinator is exactly the
/// registered prefix, so hook `i` finished before hook `j` whenever
/// `i < j`, and no hook ran twice.
pub proof fn lemma_hooks_run_in_order(c: Coordinator)
    requires
        coordinator_wf(c),
    ensures
        c.hook_log@.len() == c.hooks_run,
        forall|i: int| 0 <= i < c.hook_log@.len() ==> c.hook_log@[i] == i,
        forall|i: int, j: int|
            0 <= i < j < c.hook_log@.len() ==> c.hook_log@[i] < c.hook_log@[j],
{
}

/// Interrupt and terminate produce identical shutdown behaviour:
/// the same successor state and the same demanded action.
pub proof fn lemma_signals_equivalent(c: Coordinator)
    ensures
        spec_signal_step(c, Signal::Interrupt) == spec_signal_step(c, Signal::Terminate),
{
}

/// A shutdown signal abandons no in-flight connection: whatever was
/// tracked before the signal is still tracked after it, so a request
/// started before the signal is allowed to finish.
pub proof fn lemma_signal_preserves_inflight(c: Coordinator, s: Signal, id: u64)
    requires
        c.inflight@.contains(id),
    ensures
        spec_signal_step(c, s).0.inflight@.contains(id),
{
}

/// The drain timeout is enforced: once the timeout has elapsed, a
/// poll leaves `Draining` for `Stopped` no matter how many
/// connections are still tracked — the server never waits beyond it.
pub proof fn lemma_timeout_forces_stop(c: Coordinator)
    requires
        c.phase == Phase::Draining,
    ensures
        spec_poll_step(c, true).0.phase == Phase::Stopped,
{
}

/// Draining without a timeout abandons nothing: while connections
/// remain and the timeout has not elapsed, the state is unchanged
/// and no connection is dropped.
pub proof fn lemma_no_early_abandon(c: Coordinator)
    requires
        c.phase == Phase::Draining,
        c.inflight@.len() > 0,
    ensures
        spec_poll_step(c, false).0 == c,
        spec_poll_step(c, false).0.abandoned == c.abandoned,
{
}

} // verus!
