//! The triage worker: one request at a time, retried with growing delays.
use super::triager::{ErrorClass, TriageError};
use super::TriageResult;
use crate::incident::{IncidentId, Triaged};
use crate::retry::{
    delay_after, law_delays_grow_up_to_the_cap, Attempts, Backoff, Delay, Retry,
};
use vstd::arithmetic::power2::pow2;
use vstd::prelude::*;

verus! {

/// How often a request is tried whose answers cannot be read.
pub const OUTPUT_ERROR_ATTEMPTS: u32 = 3;

/// What the worker does next.
#[derive(Clone, Copy, PartialEq, Eq, Structural, Debug)]
pub enum Phase {
    /// It waits for a shutdown or a request, whichever is there first.
    Idle,
    /// It works on a request, and still listens for a shutdown.
    Busy,
    /// It counts the requests that are still queued, and drops them.
    Draining,
    /// It is done.
    Stopped,
}

/// What the worker hears.
pub enum Event {
    Shutdown,
    /// A request; `None` where the queue is closed, or empty while it is drained.
    Request(Option<IncidentId>),
    /// An attempt at the request in hand ended.
    Attempted(Result<TriageResult, TriageError>),
}

/// What is to be done.
pub enum Action {
    Nothing,
    /// Start on the request that just came in.
    Attempt,
    /// Wait, then try the same request again.
    AttemptAfter { delay: Delay },
    /// Hand the result on.
    Send(Triaged),
    /// Give the request up; no result is sent.
    Abandon(TriageError),
}

/// The state of the worker.
pub struct Worker {
    phase: Phase,
    dropped: usize,
    backoff: Backoff,
    incident: IncidentId,
    output_errors: u32,
    attempts: Attempts,
}

/// What of the worker matters to its callers.
pub struct WorkerView {
    pub phase: Phase,
    /// How many requests were dropped.
    pub dropped: nat,
    pub backoff: Backoff,
    /// The incident of the request in hand.
    pub incident: IncidentId,
    /// How many of the attempts at it gave an answer that could not be read.
    pub output_errors: nat,
    /// How many of the attempts at it failed and were retried.
    pub failures: nat,
}

impl View for Worker {
    type V = WorkerView;

    closed spec fn view(&self) -> WorkerView {
        WorkerView {
            phase: self.phase,
            dropped: self.dropped as nat,
            backoff: self.backoff,
            incident: self.incident,
            output_errors: self.output_errors as nat,
            failures: self.attempts.failures(),
        }
    }
}

impl WorkerView {
    /// The event is a request that the worker drops and counts.
    pub open spec fn drops(self, event: Event) -> bool {
        ||| self.phase == Phase::Busy && event is Shutdown
        ||| self.phase == Phase::Draining && event matches Event::Request(Some(_))
    }

    /// An attempt that failed this way is followed by another. Answers that cannot be read are
    /// tolerated a few times; other failures are retried for as long as it takes.
    pub open spec fn keeps_trying(self, error: TriageError) -> bool {
        error.spec_class() != ErrorClass::Output || self.output_errors + 1 < OUTPUT_ERROR_ATTEMPTS
    }

    /// How many answers that cannot be read there were, with this failure.
    pub open spec fn output_errors_with(self, error: TriageError) -> nat {
        if error.spec_class() == ErrorClass::Output {
            self.output_errors + 1
        } else {
            self.output_errors
        }
    }

    /// What the worker is after an event.
    pub open spec fn after(self, event: Event) -> WorkerView {
        let counted = WorkerView {
            dropped: if self.drops(event) {
                self.dropped + 1
            } else {
                self.dropped
            },
            ..self
        };
        match (self.phase, event) {
            (Phase::Idle, Event::Shutdown) => WorkerView { phase: Phase::Draining, ..counted },
            (Phase::Idle, Event::Request(None)) => WorkerView {
                phase: Phase::Draining,
                ..counted
            },
            (Phase::Idle, Event::Request(Some(incident))) => WorkerView {
                phase: Phase::Busy,
                incident,
                output_errors: 0,
                failures: 0,
                ..counted
            },
            (Phase::Busy, Event::Shutdown) => WorkerView { phase: Phase::Draining, ..counted },
            (Phase::Busy, Event::Attempted(Ok(_))) => WorkerView { phase: Phase::Idle, ..counted },
            (Phase::Busy, Event::Attempted(Err(error))) => if self.keeps_trying(error) {
                WorkerView {
                    output_errors: self.output_errors_with(error),
                    failures: self.failures + 1,
                    ..counted
                }
            } else {
                WorkerView {
                    phase: Phase::Idle,
                    output_errors: self.output_errors_with(error),
                    ..counted
                }
            },
            (Phase::Draining, Event::Request(None)) => WorkerView {
                phase: Phase::Stopped,
                ..counted
            },
            _ => counted,
        }
    }

    /// The action that an event calls for.
    pub open spec fn calls_for(self, event: Event, action: Action) -> bool {
        match (self.phase, event) {
            (Phase::Idle, Event::Request(Some(_))) => action is Attempt,
            (Phase::Busy, Event::Attempted(Ok(result))) => action matches Action::Send(triaged)
                && triaged.incident == self.incident && triaged.result == result,
            (Phase::Busy, Event::Attempted(Err(error))) => if self.keeps_trying(error) {
                action matches Action::AttemptAfter { delay } && delay.nanos() == delay_after(
                    self.backoff.initial.nanos() as nat,
                    self.backoff.max.nanos() as nat,
                    self.failures,
                )
            } else {
                action == Action::Abandon(error)
            },
            _ => action is Nothing,
        }
    }
}

impl Worker {
    #[verifier::type_invariant]
    spec fn in_order(self) -> bool {
        &&& self.attempts.backoff() == self.backoff
        &&& self.phase == Phase::Busy ==> self.output_errors < OUTPUT_ERROR_ATTEMPTS
    }

    /// A worker that has taken no request.
    pub fn new(backoff: Backoff) -> (worker: Worker)
        ensures
            worker@.phase == Phase::Idle,
            worker@.dropped == 0,
            worker@.backoff == backoff,
    {
        Worker {
            phase: Phase::Idle,
            dropped: 0,
            backoff,
            incident: IncidentId(0),
            output_errors: 0,
            attempts: Attempts::new(backoff),
        }
    }

    /// What the worker does next.
    pub fn phase(&self) -> (phase: Phase)
        ensures
            phase == self@.phase,
    {
        self.phase
    }

    /// How many requests were dropped.
    pub fn dropped(&self) -> (dropped: usize)
        ensures
            dropped == self@.dropped,
    {
        self.dropped
    }

    /// Takes one event. An event that the phase does not wait for is ignored.
    pub fn step(&mut self, event: Event) -> (action: Action)
        requires
            old(self)@.drops(event) ==> old(self)@.dropped < usize::MAX,
        ensures
            final(self)@ == old(self)@.after(event),
            old(self)@.calls_for(event, action),
    {
        proof {
            use_type_invariant(&*self);
        }
        match self.phase {
            Phase::Idle => match event {
                Event::Shutdown => {
                    self.phase = Phase::Draining;
                    Action::Nothing
                },
                Event::Request(None) => {
                    self.phase = Phase::Draining;
                    Action::Nothing
                },
                Event::Request(Some(incident)) => {
                    *self = Worker {
                        phase: Phase::Busy,
                        dropped: self.dropped,
                        backoff: self.backoff,
                        incident,
                        output_errors: 0,
                        attempts: Attempts::new(self.backoff),
                    };
                    Action::Attempt
                },
                Event::Attempted(_) => Action::Nothing,
            },
            Phase::Busy => match event {
                Event::Shutdown => {
                    self.dropped = self.dropped + 1;
                    self.phase = Phase::Draining;
                    Action::Nothing
                },
                Event::Request(_) => Action::Nothing,
                Event::Attempted(Ok(result)) => {
                    self.phase = Phase::Idle;
                    Action::Send(Triaged { incident: self.incident, result })
                },
                Event::Attempted(Err(error)) => self.attempt_failed(error),
            },
            Phase::Draining => match event {
                Event::Request(Some(_)) => {
                    self.dropped = self.dropped + 1;
                    Action::Nothing
                },
                Event::Request(None) => {
                    self.phase = Phase::Stopped;
                    Action::Nothing
                },
                _ => Action::Nothing,
            },
            Phase::Stopped => Action::Nothing,
        }
    }

    fn attempt_failed(&mut self, error: TriageError) -> (action: Action)
        requires
            old(self)@.phase == Phase::Busy,
        ensures
            final(self)@ == old(self)@.after(Event::Attempted(Err(error))),
            old(self)@.calls_for(Event::Attempted(Err(error)), action),
    {
        proof {
            use_type_invariant(&*self);
        }
        let mut output_errors: u32 = self.output_errors;
        let keep_trying: bool = if error.class() != ErrorClass::Output {
            true
        } else {
            output_errors = output_errors + 1;
            output_errors < OUTPUT_ERROR_ATTEMPTS
        };
        let mut attempts: Attempts = Attempts::new(self.backoff);
        std::mem::swap(&mut attempts, &mut self.attempts);
        let retry: Retry = attempts.failed(keep_trying);
        *self = Worker {
            phase: if keep_trying {
                Phase::Busy
            } else {
                Phase::Idle
            },
            dropped: self.dropped,
            backoff: self.backoff,
            incident: self.incident,
            output_errors,
            attempts,
        };
        match retry {
            Retry::After { delay } => Action::AttemptAfter { delay },
            Retry::GiveUp => Action::Abandon(error),
        }
    }
}

/// The worker after these failures of the request in hand, one after another.
pub open spec fn after_failures(worker: WorkerView, errors: Seq<TriageError>) -> WorkerView
    decreases errors.len(),
{
    if errors.len() == 0 {
        worker
    } else {
        after_failures(worker, errors.drop_last()).after(Event::Attempted(Err(errors.last())))
    }
}

/// How many of the failures are answers that could not be read.
pub open spec fn output_failures(errors: Seq<TriageError>) -> nat
    decreases errors.len(),
{
    if errors.len() == 0 {
        0
    } else {
        output_failures(errors.drop_last()) + if errors.last().spec_class() == ErrorClass::Output {
            1nat
        } else {
            0nat
        }
    }
}

/// As long as fewer answers than the cap could not be read, the request is kept, however many
/// attempts failed otherwise.
pub proof fn law_only_unreadable_answers_count(worker: WorkerView, errors: Seq<TriageError>)
    requires
        worker.phase == Phase::Busy,
        worker.output_errors + output_failures(errors) < OUTPUT_ERROR_ATTEMPTS,
    ensures
        after_failures(worker, errors) == (WorkerView {
            output_errors: worker.output_errors + output_failures(errors),
            failures: worker.failures + errors.len(),
            ..worker
        }),
    decreases errors.len(),
{
    if errors.len() > 0 {
        law_only_unreadable_answers_count(worker, errors.drop_last());
    }
}

/// With the answer that reaches the cap the request is given up: no result is sent, nothing counts
/// as dropped, and the worker waits for the next request.
pub proof fn law_request_is_given_up_at_the_cap(
    worker: WorkerView,
    errors: Seq<TriageError>,
    last: TriageError,
    action: Action,
)
    requires
        worker.phase == Phase::Busy,
        worker.output_errors == 0,
        output_failures(errors) == OUTPUT_ERROR_ATTEMPTS - 1,
        last.spec_class() == ErrorClass::Output,
        after_failures(worker, errors).calls_for(Event::Attempted(Err(last)), action),
    ensures
        action == Action::Abandon(last),
        after_failures(worker, errors).after(Event::Attempted(Err(last))).phase == Phase::Idle,
        after_failures(worker, errors).after(Event::Attempted(Err(last))).dropped
            == worker.dropped,
{
    law_only_unreadable_answers_count(worker, errors);
}

/// The worker after it took these requests from the queue, one after another.
pub open spec fn after_requests(worker: WorkerView, queued: Seq<IncidentId>) -> WorkerView
    decreases queued.len(),
{
    if queued.len() == 0 {
        worker
    } else {
        after_requests(worker, queued.drop_last()).after(Event::Request(Some(queued.last())))
    }
}

/// A shutdown drops the request in hand, if there is one, and every request that is still queued:
/// each counts once, and then the worker is done.
pub proof fn law_shutdown_drops_what_is_left(worker: WorkerView, queued: Seq<IncidentId>)
    requires
        worker.phase == Phase::Idle || worker.phase == Phase::Busy,
    ensures
        ({
            let drained = after_requests(worker.after(Event::Shutdown), queued);
            let done = drained.after(Event::Request(None));
            &&& done.phase == Phase::Stopped
            &&& done.dropped == worker.dropped + queued.len() + if worker.phase == Phase::Busy {
                1nat
            } else {
                0nat
            }
        }),
{
    lemma_draining_counts(worker.after(Event::Shutdown), queued);
}

/// While it drains the queue, the worker counts every request.
proof fn lemma_draining_counts(worker: WorkerView, queued: Seq<IncidentId>)
    requires
        worker.phase == Phase::Draining,
    ensures
        after_requests(worker, queued).phase == Phase::Draining,
        after_requests(worker, queued).dropped == worker.dropped + queued.len(),
    decreases queued.len(),
{
    if queued.len() > 0 {
        lemma_draining_counts(worker, queued.drop_last());
    }
}

/// A failure to reach the model, or one that the model reports, is retried as often as it takes: the
/// worker stays with the same request, and counts every failure.
pub proof fn law_other_failures_are_retried_forever(worker: WorkerView, errors: Seq<TriageError>)
    requires
        worker.phase == Phase::Busy,
        forall|i: int|
            0 <= i < errors.len() ==> (#[trigger] errors[i] is Timeout || errors[i] is Completion),
    ensures
        after_failures(worker, errors) == (WorkerView {
            failures: worker.failures + errors.len(),
            ..worker
        }),
    decreases errors.len(),
{
    if errors.len() > 0 {
        let before = errors.drop_last();
        assert forall|i: int| 0 <= i < before.len() implies (#[trigger] before[i] is Timeout
            || before[i] is Completion) by {
            assert(before[i] == errors[i]);
        }
        law_other_failures_are_retried_forever(worker, before);
        assert(errors.last() == errors[errors.len() - 1]);
    }
}

/// A request starts from nothing, whatever came of the ones before it; and the result of the attempt
/// that succeeds is sent for the incident of that request, after however many failures to reach the
/// model. Then the worker waits for the next request.
pub proof fn law_result_is_sent_for_the_requested_incident(
    worker: WorkerView,
    incident: IncidentId,
    errors: Seq<TriageError>,
    result: TriageResult,
    action: Action,
)
    requires
        worker.phase == Phase::Idle,
        forall|i: int|
            0 <= i < errors.len() ==> (#[trigger] errors[i] is Timeout || errors[i] is Completion),
        after_failures(worker.after(Event::Request(Some(incident))), errors).calls_for(
            Event::Attempted(Ok(result)),
            action,
        ),
    ensures
        action matches Action::Send(triaged) && triaged.incident == incident && triaged.result
            == result,
        ({
            let started = worker.after(Event::Request(Some(incident)));
            let done = after_failures(started, errors).after(Event::Attempted(Ok(result)));
            &&& started.phase == Phase::Busy
            &&& started.output_errors == 0
            &&& started.failures == 0
            &&& done.phase == Phase::Idle
            &&& done.dropped == worker.dropped
        }),
{
    law_other_failures_are_retried_forever(worker.after(Event::Request(Some(incident))), errors);
}

/// The delays between the attempts at one request double from the initial one up to the cap, and
/// start over with the next request.
pub proof fn law_delays_double_within_a_request(
    worker: WorkerView,
    incident: IncidentId,
    errors: Seq<TriageError>,
    error: TriageError,
    action: Action,
)
    requires
        worker.phase == Phase::Idle,
        worker.backoff.initial.nanos() <= worker.backoff.max.nanos(),
        forall|i: int|
            0 <= i < errors.len() ==> (#[trigger] errors[i] is Timeout || errors[i] is Completion),
        error is Timeout || error is Completion,
        after_failures(worker.after(Event::Request(Some(incident))), errors).calls_for(
            Event::Attempted(Err(error)),
            action,
        ),
    ensures
        action matches Action::AttemptAfter { delay } && delay.nanos()
            == if worker.backoff.initial.nanos() * pow2(errors.len())
            < worker.backoff.max.nanos() {
            worker.backoff.initial.nanos() * pow2(errors.len())
        } else {
            worker.backoff.max.nanos() as int
        },
{
    law_other_failures_are_retried_forever(worker.after(Event::Request(Some(incident))), errors);
    law_delays_grow_up_to_the_cap(
        worker.backoff.initial.nanos() as nat,
        worker.backoff.max.nanos() as nat,
        errors.len(),
    );
}

/// A request is given up with the third answer in a row that cannot be read, and not before.
pub proof fn law_third_unreadable_answer_ends_a_request(
    worker: WorkerView,
    incident: IncidentId,
    first: TriageError,
    second: TriageError,
    third: TriageError,
    action: Action,
)
    requires
        worker.phase == Phase::Idle,
        first is MissingText || first is UnparseableOutput,
        second is MissingText || second is UnparseableOutput,
        third is MissingText || third is UnparseableOutput,
        worker.after(Event::Request(Some(incident))).after(Event::Attempted(Err(first))).after(
            Event::Attempted(Err(second)),
        ).calls_for(Event::Attempted(Err(third)), action),
    ensures
        ({
            let started = worker.after(Event::Request(Some(incident)));
            let once = started.after(Event::Attempted(Err(first)));
            let twice = once.after(Event::Attempted(Err(second)));
            &&& once.phase == Phase::Busy && once.incident == incident
            &&& twice.phase == Phase::Busy && twice.incident == incident
            &&& action == Action::Abandon(third)
            &&& twice.after(Event::Attempted(Err(third))).phase == Phase::Idle
        }),
{
}

/// A shutdown, and a queue that is closed, end the waiting for requests; a worker that is done stays
/// as it is. Nothing is dropped but by a shutdown with a request in hand, or while the queue is
/// drained.
pub proof fn law_waiting_ends_with_a_closed_queue(worker: WorkerView, event: Event)
    ensures
        worker.phase == Phase::Idle && (event is Shutdown || event == Event::Request(None))
            ==> worker.after(event).phase == Phase::Draining && worker.after(event).dropped
            == worker.dropped,
        worker.phase == Phase::Stopped ==> worker.after(event) == worker,
        worker.after(event).dropped == worker.dropped + 1 <==> (worker.phase == Phase::Busy
            && event is Shutdown) || (worker.phase == Phase::Draining && event is Request && event
            != Event::Request(None)),
        worker.after(event).dropped == worker.dropped || worker.after(event).dropped
            == worker.dropped + 1,
        worker.after(event).backoff == worker.backoff,
{
}

} // verus!
