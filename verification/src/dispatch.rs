//! The submission phase: rounds of mint requests under a bounded number of
//! permits, and the bookkeeping of which requests the service accepted.

use vstd::prelude::*;
use crate::accepted::{accepted_ids, with_acceptance, Acceptance, Accepted};
use crate::clock::Timestamp;
use crate::graphql::CollectionMint;
use crate::ids::{lemma_slot_of, slot_of, uuid_value};
use crate::mint::mint_id;
use crate::remote::RemoteError;

verus! {

/// What the driver of the submission phase is to do next.
#[derive(Clone, Copy, Debug, PartialEq, Eq, Structural)]
pub enum Command {
    /// Take a permit and send one mint request.
    Submit,
    /// Wait until one of the requests in progress has completed.
    Await,
    /// Wait this many seconds before the next round.
    Sleep(u64),
    /// Every round is complete.
    Finished,
}

/// How a completed request was taken.
#[derive(Clone, Copy, Debug, PartialEq, Eq, Structural)]
pub enum Attempt {
    /// The request brought in this mint.
    Accepted(u128),
    /// The request failed; it is counted and brought in nothing.
    Failed,
    /// The request succeeded, but the identifier in its answer spells no
    /// UUID; it is counted and brought in nothing.
    Unreadable,
    /// No request was in progress; nothing was counted.
    Unexpected,
}

/// The submission phase as a mathematical value.
pub struct DispatcherView {
    /// Requests per round, and the number of permits.
    pub parallelism: usize,
    /// Rounds to run.
    pub iterations: usize,
    /// Seconds to wait between two rounds.
    pub delay: u64,
    /// Rounds that are complete.
    pub rounds_done: usize,
    /// Requests of the current round that were sent.
    pub launched: usize,
    /// Requests in progress, each holding a permit.
    pub outstanding: usize,
    /// Requests that have completed, accepted or not.
    pub attempts: u128,
    /// Whether the wait between two rounds is due.
    pub resting: bool,
    /// The accepted mints.
    pub accepted: Seq<Acceptance>,
}

impl DispatcherView {
    /// The permits in use never exceed the requests sent in the round, which
    /// never exceed the parallelism; the counters agree with each other; and
    /// no mint is accepted twice.
    pub open spec fn wf(self) -> bool {
        &&& self.outstanding <= self.launched <= self.parallelism
        &&& self.rounds_done <= self.iterations
        &&& self.attempts + self.outstanding == self.rounds_done * self.parallelism + self.launched
        &&& self.resting ==> self.launched == 0 && self.rounds_done < self.iterations
        &&& self.rounds_done == self.iterations ==> self.launched == 0
        &&& !self.round_complete()
        &&& accepted_ids(self.accepted).no_duplicates()
        &&& self.accepted.len() <= self.attempts
    }

    /// Whether every request of the current round was sent and has completed.
    pub open spec fn round_complete(self) -> bool {
        &&& self.rounds_done < self.iterations
        &&& !self.resting
        &&& self.launched == self.parallelism
        &&& self.outstanding == 0
    }

    /// Closes the current round if it is complete: the next round begins
    /// after a wait, unless the closed round was the last.
    pub open spec fn settled(self) -> DispatcherView {
        if self.round_complete() {
            DispatcherView {
                rounds_done: (self.rounds_done + 1) as usize,
                launched: 0,
                resting: self.rounds_done + 1 < self.iterations,
                ..self
            }
        } else {
            self
        }
    }

    /// What the driver is to do next.
    pub open spec fn command(self) -> Command {
        if self.rounds_done >= self.iterations {
            Command::Finished
        } else if self.resting {
            Command::Sleep(self.delay)
        } else if self.launched < self.parallelism && self.outstanding < self.parallelism {
            Command::Submit
        } else {
            Command::Await
        }
    }

    /// The phase after a request was sent, where one was due; unchanged otherwise.
    pub open spec fn launched_one(self) -> DispatcherView {
        if self.command() == Command::Submit {
            DispatcherView {
                launched: (self.launched + 1) as usize,
                outstanding: (self.outstanding + 1) as usize,
                ..self
            }
        } else {
            self
        }
    }

    /// The phase after a request in progress completed: its permit is free,
    /// the attempt is counted, and the mint, if the service accepted one, is
    /// recorded with the time the request began. Unchanged where no request
    /// is in progress.
    pub open spec fn completed_one(self, accepted: Option<u128>, started_at: Timestamp) -> DispatcherView {
        if self.outstanding > 0 {
            DispatcherView {
                outstanding: (self.outstanding - 1) as usize,
                attempts: (self.attempts + 1) as u128,
                accepted: match accepted {
                    Some(id) => with_acceptance(self.accepted, id, started_at),
                    None => self.accepted,
                },
                ..self
            }.settled()
        } else {
            self
        }
    }

    /// The phase after the wait between two rounds, where one was due;
    /// unchanged otherwise.
    pub open spec fn rested(self) -> DispatcherView {
        if self.resting {
            DispatcherView { resting: false, ..self }.settled()
        } else {
            self
        }
    }
}

/// The phase before anything was sent.
pub open spec fn initial(parallelism: usize, iterations: usize, delay: u64) -> DispatcherView {
    DispatcherView {
        parallelism,
        iterations,
        delay,
        rounds_done: 0,
        launched: 0,
        outstanding: 0,
        attempts: 0,
        resting: false,
        accepted: Seq::empty(),
    }.settled()
}

/// The mint that a completed request brought in: the identifier the service
/// spelled, where the request succeeded and the text spells one.
pub open spec fn brought(outcome: Result<CollectionMint, RemoteError>) -> Option<u128> {
    match outcome {
        Ok(mint) => uuid_value(mint.id@),
        Err(_) => None,
    }
}

/// How the phase takes a request that completed with `outcome`.
pub open spec fn taken(v: DispatcherView, outcome: Result<CollectionMint, RemoteError>) -> Attempt {
    if v.outstanding == 0 {
        Attempt::Unexpected
    } else {
        match outcome {
            Err(_) => Attempt::Failed,
            Ok(mint) => match uuid_value(mint.id@) {
                Some(id) => Attempt::Accepted(id),
                None => Attempt::Unreadable,
            },
        }
    }
}

/// Closing a round keeps the counters in agreement.
proof fn lemma_settled_wf(v: DispatcherView)
    requires
        v.outstanding <= v.launched <= v.parallelism,
        v.rounds_done <= v.iterations,
        v.attempts + v.outstanding == v.rounds_done * v.parallelism + v.launched,
        v.resting ==> v.launched == 0 && v.rounds_done < v.iterations,
        v.rounds_done == v.iterations ==> v.launched == 0,
        accepted_ids(v.accepted).no_duplicates(),
        v.accepted.len() <= v.attempts,
        v.parallelism == 0 ==> v.resting || v.rounds_done == v.iterations || v.round_complete(),
    ensures
        v.settled().wf(),
{
    if v.round_complete() {
        assert((v.rounds_done + 1) * v.parallelism == v.rounds_done * v.parallelism + v.parallelism)
            by (nonlinear_arith);
    }
}

/// The phase starts well formed.
pub proof fn lemma_initial_wf(parallelism: usize, iterations: usize, delay: u64)
    ensures
        initial(parallelism, iterations, delay).wf(),
{
    let v = DispatcherView {
        parallelism,
        iterations,
        delay,
        rounds_done: 0,
        launched: 0,
        outstanding: 0,
        attempts: 0,
        resting: false,
        accepted: Seq::empty(),
    };
    assert(0 * parallelism == 0) by (nonlinear_arith);
    lemma_settled_wf(v);
}

/// Sending a request keeps the phase well formed.
pub proof fn lemma_launched_wf(v: DispatcherView)
    requires
        v.wf(),
    ensures
        v.launched_one().wf(),
{
}

/// A completion keeps the phase well formed.
pub proof fn lemma_completed_wf(v: DispatcherView, accepted: Option<u128>, started_at: Timestamp)
    requires
        v.wf(),
    ensures
        v.completed_one(accepted, started_at).wf(),
        v.outstanding > 0 ==> v.attempts < u128::MAX,
{
    if v.outstanding > 0 {
        let grown = match accepted {
            Some(id) => with_acceptance(v.accepted, id, started_at),
            None => v.accepted,
        };
        if let Some(id) = accepted {
            lemma_slot_of(accepted_ids(v.accepted), id);
            if slot_of(accepted_ids(v.accepted), id) < v.accepted.len() {
                assert(accepted_ids(grown) =~= accepted_ids(v.accepted));
            } else {
                assert(accepted_ids(grown) =~= accepted_ids(v.accepted).push(id));
            }
        }
        assert(v.attempts + 1 <= u128::MAX) by {
            assert(v.rounds_done * v.parallelism <= 0xffff_ffff_ffff_ffff * 0xffff_ffff_ffff_ffff)
                by (nonlinear_arith)
                requires
                    0 <= v.rounds_done <= 0xffff_ffff_ffff_ffff,
                    0 <= v.parallelism <= 0xffff_ffff_ffff_ffff,
            ;
        }
        let w = DispatcherView {
            outstanding: (v.outstanding - 1) as usize,
            attempts: (v.attempts + 1) as u128,
            accepted: grown,
            ..v
        };
        lemma_settled_wf(w);
    }
}

/// The end of a wait keeps the phase well formed.
pub proof fn lemma_rested_wf(v: DispatcherView)
    requires
        v.wf(),
    ensures
        v.rested().wf(),
{
    if v.resting {
        lemma_settled_wf(DispatcherView { resting: false, ..v });
    }
}

/// The submission phase of one run. It tells its driver when to send a
/// request, when to wait, and when the phase is over, and it keeps the mints
/// that the service accepted.
#[derive(Debug)]
pub struct Dispatcher {
    parallelism: usize,
    iterations: usize,
    delay: u64,
    rounds_done: usize,
    launched: usize,
    outstanding: usize,
    attempts: u128,
    resting: bool,
    accepted: Accepted,
}

impl View for Dispatcher {
    type V = DispatcherView;

    closed spec fn view(&self) -> DispatcherView {
        DispatcherView {
            parallelism: self.parallelism,
            iterations: self.iterations,
            delay: self.delay,
            rounds_done: self.rounds_done,
            launched: self.launched,
            outstanding: self.outstanding,
            attempts: self.attempts,
            resting: self.resting,
            accepted: self.accepted@,
        }
    }
}

impl Dispatcher {
    #[verifier::type_invariant]
    spec fn inv(&self) -> bool {
        self@.wf()
    }

    /// Builds the phase from its parts, closing the current round if it is complete.
    fn settle(
        parallelism: usize,
        iterations: usize,
        delay: u64,
        rounds_done: usize,
        launched: usize,
        outstanding: usize,
        attempts: u128,
        resting: bool,
        accepted: Accepted,
    ) -> (phase: Dispatcher)
        requires
            (DispatcherView {
                parallelism,
                iterations,
                delay,
                rounds_done,
                launched,
                outstanding,
                attempts,
                resting,
                accepted: accepted@,
            }).settled().wf(),
        ensures
            phase@ == (DispatcherView {
                parallelism,
                iterations,
                delay,
                rounds_done,
                launched,
                outstanding,
                attempts,
                resting,
                accepted: accepted@,
            }).settled(),
    {
        if rounds_done < iterations && !resting && launched == parallelism && outstanding == 0 {
            Dispatcher {
                parallelism,
                iterations,
                delay,
                rounds_done: rounds_done + 1,
                launched: 0,
                outstanding,
                attempts,
                resting: rounds_done + 1 < iterations,
                accepted,
            }
        } else {
            Dispatcher {
                parallelism,
                iterations,
                delay,
                rounds_done,
                launched,
                outstanding,
                attempts,
                resting,
                accepted,
            }
        }
    }

    /// The phase before anything was sent: `iterations` rounds of
    /// `parallelism` requests each, with `delay` seconds between two rounds.
    pub fn new(parallelism: usize, iterations: usize, delay: u64) -> (phase: Dispatcher)
        ensures
            phase@ == initial(parallelism, iterations, delay),
            phase@.wf(),
    {
        proof {
            lemma_initial_wf(parallelism, iterations, delay);
        }
        Dispatcher::settle(parallelism, iterations, delay, 0, 0, 0, 0, false, Accepted::new())
    }

    /// What the driver is to do next.
    pub fn next(&self) -> (command: Command)
        ensures
            command == self@.command(),
            self@.wf(),
    {
        proof {
            use_type_invariant(self);
        }
        if self.rounds_done >= self.iterations {
            Command::Finished
        } else if self.resting {
            Command::Sleep(self.delay)
        } else if self.launched < self.parallelism && self.outstanding < self.parallelism {
            Command::Submit
        } else {
            Command::Await
        }
    }

    /// The requests in progress; never more than the parallelism.
    pub fn outstanding(&self) -> (n: usize)
        ensures
            n == self@.outstanding,
            n <= self@.parallelism,
    {
        proof {
            use_type_invariant(self);
        }
        self.outstanding
    }

    /// The requests that have completed, accepted or not.
    pub fn attempts(&self) -> (n: u128)
        ensures
            n == self@.attempts,
    {
        self.attempts
    }

    /// The rounds that are complete.
    pub fn rounds_done(&self) -> (n: usize)
        ensures
            n == self@.rounds_done,
    {
        self.rounds_done
    }

    /// The mints accepted so far.
    pub fn accepted(&self) -> (accepted: &Accepted)
        ensures
            accepted@ == self@.accepted,
    {
        &self.accepted
    }

    /// Ends the phase and hands out the accepted mints.
    pub fn finish(self) -> (accepted: Accepted)
        ensures
            accepted@ == self@.accepted,
    {
        self.accepted
    }

    /// Takes a permit for one request, where [`Dispatcher::next`] asks for
    /// one; says whether it did. The driver sends the request only then.
    pub fn launch(&mut self) -> (granted: bool)
        ensures
            final(self)@ == old(self)@.launched_one(),
            granted == (old(self)@.command() == Command::Submit),
            final(self)@.wf(),
    {
        proof {
            use_type_invariant(&*self);
            lemma_launched_wf(self@);
        }
        match self.next() {
            Command::Submit => {
                let mut accepted = Accepted::new();
                core::mem::swap(&mut accepted, &mut self.accepted);
                *self = Dispatcher {
                    parallelism: self.parallelism,
                    iterations: self.iterations,
                    delay: self.delay,
                    rounds_done: self.rounds_done,
                    launched: self.launched + 1,
                    outstanding: self.outstanding + 1,
                    attempts: self.attempts,
                    resting: self.resting,
                    accepted,
                };
                true
            },
            _ => false,
        }
    }

    /// Takes note that a request in progress completed: its permit is free
    /// again and the attempt is counted. `accepted` is the mint the request
    /// brought in, if any; it is recorded with the time the request began.
    /// Does nothing where no request is in progress, and says so by `false`.
    pub fn record_attempt(&mut self, accepted: Option<u128>, started_at: Timestamp) -> (counted: bool)
        ensures
            final(self)@ == old(self)@.completed_one(accepted, started_at),
            counted == (old(self)@.outstanding > 0),
            final(self)@.wf(),
    {
        proof {
            use_type_invariant(&*self);
            lemma_completed_wf(self@, accepted, started_at);
        }
        if self.outstanding > 0 {
            let mut mints = Accepted::new();
            core::mem::swap(&mut mints, &mut self.accepted);
            if let Some(id) = accepted {
                mints.insert(id, started_at);
            }
            *self = Dispatcher::settle(
                self.parallelism,
                self.iterations,
                self.delay,
                self.rounds_done,
                self.launched,
                self.outstanding - 1,
                self.attempts + 1,
                self.resting,
                mints,
            );
            true
        } else {
            false
        }
    }

    /// Takes note that a request in progress completed with `outcome`, as
    /// [`Dispatcher::record_attempt`] does, and says how it was taken. The
    /// request brought in a mint where it succeeded and the identifier in
    /// its answer spells a UUID; a failed request, or an answer with an
    /// unreadable identifier, only counts as an attempt.
    pub fn complete(&mut self, outcome: &Result<CollectionMint, RemoteError>, started_at: Timestamp) -> (attempt:
        Attempt)
        ensures
            final(self)@ == old(self)@.completed_one(brought(*outcome), started_at),
            attempt == taken(old(self)@, *outcome),
            final(self)@.wf(),
    {
        let (accepted, attempt) = match outcome {
            Ok(mint) => match mint_id(mint) {
                Some(id) => (Some(id), Attempt::Accepted(id)),
                None => (None, Attempt::Unreadable),
            },
            Err(_) => (None, Attempt::Failed),
        };
        if self.record_attempt(accepted, started_at) {
            attempt
        } else {
            Attempt::Unexpected
        }
    }

    /// Takes note that the wait between two rounds is over, where one was due.
    pub fn rested(&mut self)
        ensures
            final(self)@ == old(self)@.rested(),
            final(self)@.wf(),
    {
        proof {
            use_type_invariant(&*self);
            lemma_rested_wf(self@);
        }
        if self.resting {
            let mut accepted = Accepted::new();
            core::mem::swap(&mut accepted, &mut self.accepted);
            *self = Dispatcher::settle(
                self.parallelism,
                self.iterations,
                self.delay,
                self.rounds_done,
                self.launched,
                self.outstanding,
                self.attempts,
                false,
                accepted,
            );
        }
    }
}

} // verus!
