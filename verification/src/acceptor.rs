//! The acceptor loop, as decisions between the blocking accepts of its caller.
//!
//! The caller owns the listening socket. While the acceptor is listening it waits
//! for the next arrival, reports it to [`Acceptor::on_arrival`] and does as told:
//! it wraps a connection in a job and submits it, or reports a failed accept and
//! goes on. Once the acceptor has stopped, the caller shuts the pool down and
//! returns.
//!
//! An acceptor may be given a bound on the connections it takes. It stops after
//! the last of them, or when it is asked to.

use vstd::prelude::*;

verus! {

/// What the listening socket produced.
#[derive(Clone, Copy, Debug, PartialEq, Eq, Structural)]
pub enum Arrival {
    /// A connection was accepted.
    Connection,
    /// An accept failed.
    Failure,
    /// The owner asks the acceptor to stop.
    StopRequest,
}

/// What the caller is to do about an arrival.
#[derive(Clone, Copy, Debug, PartialEq, Eq, Structural)]
pub enum Decision {
    /// Submit the connection to the pool.
    Submit,
    /// Report the failure and keep listening.
    Report,
    /// Take nothing more: the acceptor has stopped.
    Stop,
}

/// The model of an acceptor.
pub struct AcceptorView {
    /// Whether the acceptor is listening; it has stopped otherwise.
    pub listening: bool,
    /// How many more connections may be taken, where there is a bound.
    pub remaining: Option<nat>,
    /// Ledger: how many connections were submitted so far.
    pub submitted: nat,
}

impl AcceptorView {
    /// A new acceptor. With a bound of zero it has stopped before it began.
    pub open spec fn fresh(limit: Option<nat>) -> Self {
        AcceptorView { listening: limit != Some(0nat), remaining: limit, submitted: 0 }
    }

    /// What is decided about `arrival`.
    pub open spec fn decision(self, arrival: Arrival) -> Decision {
        if !self.listening {
            Decision::Stop
        } else {
            match arrival {
                Arrival::Connection => Decision::Submit,
                Arrival::Failure => Decision::Report,
                Arrival::StopRequest => Decision::Stop,
            }
        }
    }

    /// The bound after one more connection was taken.
    pub open spec fn one_less(self) -> Option<nat> {
        match self.remaining {
            Some(n) => Some((n - 1) as nat),
            None => None,
        }
    }

    /// The acceptor after `arrival`. A connection counts against the bound, and the
    /// last one stops the acceptor; a failure changes nothing; a request to stop
    /// stops it. A stopped acceptor stays as it is.
    pub open spec fn step(self, arrival: Arrival) -> Self {
        if !self.listening {
            self
        } else {
            match arrival {
                Arrival::Connection => AcceptorView {
                    listening: self.one_less() != Some(0nat),
                    remaining: self.one_less(),
                    submitted: self.submitted + 1,
                },
                Arrival::Failure => self,
                Arrival::StopRequest => AcceptorView { listening: false, ..self },
            }
        }
    }

    /// The acceptor that a bound of `limit` reaches through `arrivals`.
    pub open spec fn run(limit: Option<nat>, arrivals: Seq<Arrival>) -> Self
        decreases arrivals.len(),
    {
        if arrivals.len() == 0 {
            Self::fresh(limit)
        } else {
            Self::run(limit, arrivals.drop_last()).step(arrivals.last())
        }
    }

    /// A listening acceptor may take at least one more connection.
    pub open spec fn inv(self) -> bool {
        self.listening ==> self.remaining != Some(0nat)
    }
}

/// The bound holds. Whatever arrives: an acceptor with a bound has submitted as
/// many connections as the bound has gone down, so never more than the bound, and
/// it has stopped once the bound is used up. An acceptor without a bound keeps
/// none.
pub proof fn law_bound_is_kept(limit: Option<nat>, arrivals: Seq<Arrival>)
    ensures
        ({
            let acceptor = AcceptorView::run(limit, arrivals);
            &&& acceptor.inv()
            &&& match limit {
                Some(n) => acceptor.remaining matches Some(left) && acceptor.submitted + left
                    == n,
                None => acceptor.remaining is None,
            }
        }),
    decreases arrivals.len(),
{
    if arrivals.len() > 0 {
        law_bound_is_kept(limit, arrivals.drop_last());
    }
}

/// A stopped acceptor stays stopped: whatever arrives, the decision is to stop and
/// nothing changes.
pub proof fn law_stopped_is_final(acceptor: AcceptorView, arrival: Arrival)
    requires
        !acceptor.listening,
    ensures
        acceptor.decision(arrival) == Decision::Stop,
        acceptor.step(arrival) == acceptor,
{
}

/// A failed accept is not fatal: a listening acceptor keeps listening, and the
/// failure does not count against the bound.
pub proof fn law_failure_keeps_listening(acceptor: AcceptorView)
    requires
        acceptor.listening,
    ensures
        acceptor.decision(Arrival::Failure) == Decision::Report,
        acceptor.step(Arrival::Failure) == acceptor,
{
}

/// The state of an acceptor loop.
pub struct Acceptor {
    listening: bool,
    remaining: Option<usize>,
    submitted: Ghost<nat>,
}

impl View for Acceptor {
    type V = AcceptorView;

    closed spec fn view(&self) -> AcceptorView {
        AcceptorView {
            listening: self.listening,
            remaining: match self.remaining {
                Some(n) => Some(n as nat),
                None => None,
            },
            submitted: self.submitted@,
        }
    }
}

/// A bound as a natural number.
pub open spec fn bound_view(limit: Option<usize>) -> Option<nat> {
    match limit {
        Some(n) => Some(n as nat),
        None => None,
    }
}

impl Acceptor {
    /// Whether the acceptor is well formed: its model satisfies the invariant.
    /// Every acceptor that this module hands out is.
    pub open spec fn wf(&self) -> bool {
        self@.inv()
    }

    /// An acceptor that takes `limit` connections, or any number for `None`.
    pub fn new(limit: Option<usize>) -> (acceptor: Self)
        ensures
            acceptor.wf(),
            acceptor@ == AcceptorView::fresh(bound_view(limit)),
    {
        let listening = match limit {
            Some(n) => n != 0,
            None => true,
        };
        Acceptor { listening, remaining: limit, submitted: Ghost(0) }
    }

    /// Whether the acceptor is listening.
    pub fn is_listening(&self) -> (listening: bool)
        ensures
            listening == self@.listening,
    {
        self.listening
    }

    /// How many more connections may be taken, where there is a bound.
    pub fn remaining(&self) -> (left: Option<usize>)
        ensures
            bound_view(left) == self@.remaining,
    {
        self.remaining
    }

    /// Decides about `arrival` and moves on.
    pub fn on_arrival(&mut self, arrival: Arrival) -> (decision: Decision)
        requires
            old(self).wf(),
        ensures
            final(self).wf(),
            decision == old(self)@.decision(arrival),
            final(self)@ == old(self)@.step(arrival),
    {
        if !self.listening {
            return Decision::Stop;
        }
        match arrival {
            Arrival::Connection => {
                match self.remaining {
                    Some(n) => {
                        self.remaining = Some(n - 1);
                        self.listening = n - 1 != 0;
                    },
                    None => {},
                }
                self.submitted = Ghost((self.submitted@ + 1) as nat);
                Decision::Submit
            },
            Arrival::Failure => Decision::Report,
            Arrival::StopRequest => {
                self.listening = false;
                Decision::Stop
            },
        }
    }
}

} // verus!
