//! The decisions of the retry loop that executes a transaction: a state
//! machine that takes what happened (a transaction was built, simulated,
//! sent, confirmed or timed out) and says what to do next.

use vstd::prelude::*;
use crate::signature_watch::{PendingSignatures, SignatureBytes};
use crate::transaction_executor_builder::SendTransactionMeta;

verus! {

/// A policy for retries; it carries no settings of its own.
#[derive(Clone, Copy, Debug)]
pub struct RetryPolicy {}

/// Why an execution ended without a confirmed signature.
#[derive(Clone, Copy, Debug, PartialEq, Eq, Structural)]
pub enum ExecutionError {
    /// The builder of the transaction reported an error.
    BuildFailed,
    /// The simulation of an attempt could not be obtained.
    SimulationUnavailable,
    /// The simulation of an attempt failed before any attempt had been sent.
    FirstAttemptRejected,
    /// No attempt was ever sent.
    NoAttemptMade,
    /// The watcher stopped without reporting an executed signature.
    NoTransactionExecuted,
    /// No attempt was confirmed in the time allowed after the last send.
    TimedOut,
}

/// What the builder of transactions yielded when asked for the next attempt.
#[derive(Clone, Copy, Debug, PartialEq, Eq)]
pub enum BuildOutcome {
    /// A transaction with this signature.
    Built(SignatureBytes),
    /// An error instead of a transaction.
    Failed,
    /// The builder has no more transactions.
    Exhausted,
}

/// What the simulation of an attempt said.
#[derive(Clone, Copy, Debug, PartialEq, Eq, Structural)]
pub enum SimulationOutcome {
    /// The simulation ran without error.
    Succeeded,
    /// The transaction has already been processed.
    AlreadyProcessed,
    /// Its blockhash was not found.
    BlockhashNotFound,
    /// Any other transaction error.
    Rejected,
    /// The simulation request itself failed.
    Unavailable,
}

/// How a wait for an executed signature ended.
#[derive(Clone, Copy, Debug, PartialEq, Eq)]
pub enum WaitOutcome {
    /// The watcher reported this signature as executed.
    Executed(SignatureBytes),
    /// The watcher is gone.
    ChannelClosed,
    /// The time allowed ran out.
    TimedOut,
}

/// Something that happened, handed to the executor.
#[derive(Clone, Copy, Debug, PartialEq, Eq)]
pub enum ExecutorEvent {
    TransactionBuilt(BuildOutcome),
    Simulated(SimulationOutcome),
    /// The current attempt was handed to the send provider (whatever it answered).
    Sent,
    Waited(WaitOutcome),
}

/// Where the execution stands.
#[derive(Clone, Copy, Debug, PartialEq, Eq)]
pub enum ExecutionPhase {
    /// Waiting for the builder to yield the next attempt.
    AwaitingTransaction,
    /// Waiting for the simulation of the attempt with this signature.
    Simulating { signature: SignatureBytes },
    /// Waiting for the attempt with this signature to be sent.
    Sending { signature: SignatureBytes },
    /// Waiting, up to the send interval, for an executed signature.
    AwaitingExecution { signature: SignatureBytes },
    /// No more attempts: waiting, up to the final timeout, for an executed signature.
    AwaitingFinalExecution,
    /// Done, with this result.
    Finished(Result<SignatureBytes, ExecutionError>),
}

/// What the caller is to do next.
#[derive(Clone, Copy, Debug, PartialEq, Eq)]
pub enum ExecutorAction {
    /// Ask the builder for the next transaction.
    PullTransaction,
    /// Simulate the current transaction.
    Simulate { signature: SignatureBytes },
    /// Send the current transaction with this meta.
    Send { signature: SignatureBytes, meta: SendTransactionMeta },
    /// Wait for an executed signature, up to the send interval.
    AwaitExecution { signature: SignatureBytes },
    /// Wait for an executed signature, up to the time allowed after the last send.
    AwaitFinalExecution,
    /// Stop with this result.
    Complete(Result<SignatureBytes, ExecutionError>),
}

/// The state of one execution: the attempt limit, the number of attempts
/// begun, and the phase.
#[derive(Clone, Copy, Debug, PartialEq, Eq)]
pub struct TransactionExecution {
    pub max_attempts: u32,
    pub attempt: u32,
    pub phase: ExecutionPhase,
}

/// The state of an execution that has begun no attempt yet.
pub open spec fn initial(max_attempts: u32) -> TransactionExecution {
    TransactionExecution { max_attempts, attempt: 0, phase: ExecutionPhase::AwaitingTransaction }
}

/// Whether an attempt is under way in this phase (it has begun and has not
/// been sent yet).
pub open spec fn in_flight(phase: ExecutionPhase) -> bool {
    phase is Simulating || phase is Sending
}

/// The invariant of an execution: no more attempts than allowed, and an
/// attempt under way or awaited has been counted.
pub open spec fn well_formed(s: TransactionExecution) -> bool {
    &&& s.attempt <= s.max_attempts
    &&& (s.phase is Simulating || s.phase is Sending || s.phase is AwaitingExecution) ==> s.attempt >= 1
}

/// The phase after the loop over attempts has ended.
pub open spec fn after_attempts(pending: Seq<SignatureBytes>) -> ExecutionPhase {
    if pending.len() == 0 {
        ExecutionPhase::Finished(Err(ExecutionError::NoAttemptMade))
    } else {
        ExecutionPhase::AwaitingFinalExecution
    }
}

/// The phase that the next transaction from the builder leads to (the
/// attempt counter having been increased).
pub open spec fn phase_for_build(outcome: BuildOutcome) -> ExecutionPhase {
    match outcome {
        BuildOutcome::Built(signature) => ExecutionPhase::Simulating { signature },
        _ => ExecutionPhase::Finished(Err(ExecutionError::BuildFailed)),
    }
}

/// The phase that the simulation of the attempt `signature` leads to.
pub open spec fn phase_for_simulation(
    signature: SignatureBytes,
    outcome: SimulationOutcome,
    pending: Seq<SignatureBytes>,
) -> ExecutionPhase {
    match outcome {
        SimulationOutcome::Succeeded => ExecutionPhase::Sending { signature },
        SimulationOutcome::AlreadyProcessed => ExecutionPhase::Finished(Ok(signature)),
        SimulationOutcome::BlockhashNotFound => ExecutionPhase::AwaitingTransaction,
        SimulationOutcome::Rejected => if pending.len() == 0 {
            ExecutionPhase::Finished(Err(ExecutionError::FirstAttemptRejected))
        } else {
            after_attempts(pending)
        },
        SimulationOutcome::Unavailable => ExecutionPhase::Finished(Err(ExecutionError::SimulationUnavailable)),
    }
}

/// The phase that a wait within the loop leads to.
pub open spec fn phase_for_wait(outcome: WaitOutcome) -> ExecutionPhase {
    match outcome {
        WaitOutcome::Executed(signature) => ExecutionPhase::Finished(Ok(signature)),
        _ => ExecutionPhase::AwaitingTransaction,
    }
}

/// The phase that the final wait leads to.
pub open spec fn phase_for_final_wait(outcome: WaitOutcome) -> ExecutionPhase {
    match outcome {
        WaitOutcome::Executed(signature) => ExecutionPhase::Finished(Ok(signature)),
        WaitOutcome::ChannelClosed => ExecutionPhase::Finished(Err(ExecutionError::NoTransactionExecuted)),
        WaitOutcome::TimedOut => ExecutionPhase::Finished(Err(ExecutionError::TimedOut)),
    }
}

/// One step of an execution: the new state and the new pending signatures
/// after `event`, given the signatures pending before it. An event that the
/// phase does not wait for changes nothing.
pub open spec fn transition(
    s: TransactionExecution,
    event: ExecutorEvent,
    pending: Seq<SignatureBytes>,
) -> (TransactionExecution, Seq<SignatureBytes>) {
    match (s.phase, event) {
        (ExecutionPhase::AwaitingTransaction, ExecutorEvent::TransactionBuilt(outcome)) => {
            if outcome is Exhausted || s.attempt >= s.max_attempts {
                (TransactionExecution { phase: after_attempts(pending), ..s }, pending)
            } else {
                (
                    TransactionExecution {
                        attempt: (s.attempt + 1) as u32,
                        phase: phase_for_build(outcome),
                        ..s
                    },
                    pending,
                )
            }
        },
        (ExecutionPhase::Simulating { signature }, ExecutorEvent::Simulated(outcome)) => (
            TransactionExecution { phase: phase_for_simulation(signature, outcome, pending), ..s },
            pending,
        ),
        (ExecutionPhase::Sending { signature }, ExecutorEvent::Sent) => (
            TransactionExecution { phase: ExecutionPhase::AwaitingExecution { signature }, ..s },
            pending.push(signature),
        ),
        (ExecutionPhase::AwaitingExecution { .. }, ExecutorEvent::Waited(outcome)) => (
            TransactionExecution { phase: phase_for_wait(outcome), ..s },
            pending,
        ),
        (ExecutionPhase::AwaitingFinalExecution, ExecutorEvent::Waited(outcome)) => (
            TransactionExecution { phase: phase_for_final_wait(outcome), ..s },
            pending,
        ),
        _ => (s, pending),
    }
}

/// What the caller is to do in state `s`.
pub open spec fn action_of(s: TransactionExecution) -> ExecutorAction {
    match s.phase {
        ExecutionPhase::AwaitingTransaction => ExecutorAction::PullTransaction,
        ExecutionPhase::Simulating { signature } => ExecutorAction::Simulate { signature },
        ExecutionPhase::Sending { signature } => ExecutorAction::Send {
            signature,
            meta: SendTransactionMeta { attempt: s.attempt },
        },
        ExecutionPhase::AwaitingExecution { signature } => ExecutorAction::AwaitExecution { signature },
        ExecutionPhase::AwaitingFinalExecution => ExecutorAction::AwaitFinalExecution,
        ExecutionPhase::Finished(result) => ExecutorAction::Complete(result),
    }
}

impl TransactionExecution {
    /// An execution that may begin up to `max_attempts` attempts.
    pub fn new(max_attempts: u32) -> (r: TransactionExecution)
        ensures
            r == initial(max_attempts),
            well_formed(r),
    {
        TransactionExecution { max_attempts, attempt: 0, phase: ExecutionPhase::AwaitingTransaction }
    }

    /// What the caller is to do now.
    pub fn next_action(&self) -> (r: ExecutorAction)
        ensures
            r == action_of(*self),
    {
        match self.phase {
            ExecutionPhase::AwaitingTransaction => ExecutorAction::PullTransaction,
            ExecutionPhase::Simulating { signature } => ExecutorAction::Simulate { signature },
            ExecutionPhase::Sending { signature } => ExecutorAction::Send {
                signature,
                meta: SendTransactionMeta { attempt: self.attempt },
            },
            ExecutionPhase::AwaitingExecution { signature } => ExecutorAction::AwaitExecution { signature },
            ExecutionPhase::AwaitingFinalExecution => ExecutorAction::AwaitFinalExecution,
            ExecutionPhase::Finished(result) => ExecutorAction::Complete(result),
        }
    }

    /// Takes in what happened, updates the pending signatures (the signature of
    /// a sent attempt joins them), and says what to do next.
    pub fn step(&mut self, event: ExecutorEvent, pending: &mut PendingSignatures) -> (action: ExecutorAction)
        ensures
            *final(self) == transition(*old(self), event, old(pending)@).0,
            final(pending)@ == transition(*old(self), event, old(pending)@).1,
            action == action_of(*final(self)),
            well_formed(*old(self)) ==> well_formed(*final(self)),
    {
        let current = self.phase;
        match (current, event) {
            (ExecutionPhase::AwaitingTransaction, ExecutorEvent::TransactionBuilt(outcome)) => {
                let exhausted = matches!(outcome, BuildOutcome::Exhausted);
                if exhausted || self.attempt >= self.max_attempts {
                    self.phase = self.phase_after_attempts(pending);
                } else {
                    self.attempt = self.attempt + 1;
                    self.phase = match outcome {
                        BuildOutcome::Built(signature) => ExecutionPhase::Simulating { signature },
                        _ => ExecutionPhase::Finished(Err(ExecutionError::BuildFailed)),
                    };
                }
            },
            (ExecutionPhase::Simulating { signature }, ExecutorEvent::Simulated(outcome)) => {
                self.phase = match outcome {
                    SimulationOutcome::Succeeded => ExecutionPhase::Sending { signature },
                    SimulationOutcome::AlreadyProcessed => ExecutionPhase::Finished(Ok(signature)),
                    SimulationOutcome::BlockhashNotFound => ExecutionPhase::AwaitingTransaction,
                    SimulationOutcome::Rejected => if pending.is_empty() {
                        ExecutionPhase::Finished(Err(ExecutionError::FirstAttemptRejected))
                    } else {
                        self.phase_after_attempts(pending)
                    },
                    SimulationOutcome::Unavailable => ExecutionPhase::Finished(
                        Err(ExecutionError::SimulationUnavailable),
                    ),
                };
            },
            (ExecutionPhase::Sending { signature }, ExecutorEvent::Sent) => {
                pending.record(signature);
                self.phase = ExecutionPhase::AwaitingExecution { signature };
            },
            (ExecutionPhase::AwaitingExecution { .. }, ExecutorEvent::Waited(outcome)) => {
                self.phase = match outcome {
                    WaitOutcome::Executed(signature) => ExecutionPhase::Finished(Ok(signature)),
                    _ => ExecutionPhase::AwaitingTransaction,
                };
            },
            (ExecutionPhase::AwaitingFinalExecution, ExecutorEvent::Waited(outcome)) => {
                self.phase = match outcome {
                    WaitOutcome::Executed(signature) => ExecutionPhase::Finished(Ok(signature)),
                    WaitOutcome::ChannelClosed => ExecutionPhase::Finished(
                        Err(ExecutionError::NoTransactionExecuted),
                    ),
                    WaitOutcome::TimedOut => ExecutionPhase::Finished(Err(ExecutionError::TimedOut)),
                };
            },
            _ => {},
        }
        self.next_action()
    }

    fn phase_after_attempts(&self, pending: &PendingSignatures) -> (r: ExecutionPhase)
        ensures
            r == after_attempts(pending@),
    {
        if pending.is_empty() {
            ExecutionPhase::Finished(Err(ExecutionError::NoAttemptMade))
        } else {
            ExecutionPhase::AwaitingFinalExecution
        }
    }
}

/// How far a phase is from the end of the execution, within one attempt.
pub open spec fn phase_rank(phase: ExecutionPhase) -> nat {
    match phase {
        ExecutionPhase::Finished(_) => 0,
        ExecutionPhase::AwaitingFinalExecution => 1,
        ExecutionPhase::AwaitingTransaction => 2,
        ExecutionPhase::AwaitingExecution { .. } => 3,
        ExecutionPhase::Sending { .. } => 4,
        ExecutionPhase::Simulating { .. } => 5,
    }
}

/// An upper bound on the number of events that can still change the state.
pub open spec fn remaining_work(s: TransactionExecution) -> nat {
    ((s.max_attempts - s.attempt) * 6 + phase_rank(s.phase)) as nat
}

/// The state and pending signatures after a sequence of events.
pub open spec fn run(
    s: TransactionExecution,
    events: Seq<ExecutorEvent>,
    pending: Seq<SignatureBytes>,
) -> (TransactionExecution, Seq<SignatureBytes>)
    decreases events.len(),
{
    if events.len() == 0 {
        (s, pending)
    } else {
        let next = transition(s, events[0], pending);
        run(next.0, events.drop_first(), next.1)
    }
}

/// Every step keeps the invariant: the attempt counter stays within the limit.
pub proof fn lemma_step_preserves_well_formed(
    s: TransactionExecution,
    event: ExecutorEvent,
    pending: Seq<SignatureBytes>,
)
    requires
        well_formed(s),
    ensures
        well_formed(transition(s, event, pending).0),
{
}

/// Every event that changes the state brings the execution strictly closer to
/// its end, so an execution reacts to at most `6 * max_attempts + 2` events.
pub proof fn lemma_step_makes_progress(s: TransactionExecution, event: ExecutorEvent, pending: Seq<SignatureBytes>)
    requires
        well_formed(s),
    ensures
        transition(s, event, pending).0 != s ==> remaining_work(transition(s, event, pending).0)
            < remaining_work(s),
        remaining_work(initial(s.max_attempts)) == 6 * s.max_attempts + 2,
{
    let next = transition(s, event, pending).0;
    if next != s {
        assert(next.attempt == s.attempt || next.attempt == s.attempt + 1);
        if next.attempt == s.attempt + 1 {
            assert(s.attempt < s.max_attempts);
            assert((s.max_attempts - next.attempt) * 6 + 6 == (s.max_attempts - s.attempt) * 6);
        }
    }
}

/// A finished execution ignores every further event.
pub proof fn lemma_finished_is_final(s: TransactionExecution, event: ExecutorEvent, pending: Seq<SignatureBytes>)
    requires
        s.phase is Finished,
    ensures
        transition(s, event, pending) == (s, pending),
{
}

/// The limit never changes, and the counter goes up only when the builder
/// yields a transaction (or an error) below the limit, and then by one.
pub proof fn lemma_attempts_counted(s: TransactionExecution, event: ExecutorEvent, pending: Seq<SignatureBytes>)
    requires
        well_formed(s),
    ensures
        transition(s, event, pending).0.max_attempts == s.max_attempts,
        transition(s, event, pending).0.attempt == s.attempt || ({
            &&& s.phase is AwaitingTransaction
            &&& event matches ExecutorEvent::TransactionBuilt(outcome) && !(outcome is Exhausted)
            &&& s.attempt < s.max_attempts
            &&& transition(s, event, pending).0.attempt == s.attempt + 1
        }),
{
}

/// Every send carries an attempt number between 1 and the limit.
pub proof fn lemma_send_numbered_within_limit(s: TransactionExecution)
    requires
        well_formed(s),
    ensures
        action_of(s) matches ExecutorAction::Send { meta, .. } ==> 1 <= meta.attempt <= s.max_attempts,
{
}

/// An attempt is sent only after its simulation succeeded.
pub proof fn lemma_send_follows_successful_simulation(
    s: TransactionExecution,
    event: ExecutorEvent,
    pending: Seq<SignatureBytes>,
)
    requires
        !(s.phase is Sending),
        transition(s, event, pending).0.phase is Sending,
    ensures
        transition(s, event, pending).0.phase matches ExecutionPhase::Sending { signature }
            && s.phase == (ExecutionPhase::Simulating { signature }),
        event == ExecutorEvent::Simulated(SimulationOutcome::Succeeded),
{
}

/// A signature is returned as executed only when the watcher reported it, or
/// when the simulation of that very attempt found it already processed.
pub proof fn lemma_success_has_a_source(
    s: TransactionExecution,
    event: ExecutorEvent,
    pending: Seq<SignatureBytes>,
    signature: SignatureBytes,
)
    requires
        !(s.phase is Finished),
        transition(s, event, pending).0.phase == ExecutionPhase::Finished(Ok(signature)),
    ensures
        event == ExecutorEvent::Waited(WaitOutcome::Executed(signature)) || (s.phase
            == ExecutionPhase::Simulating { signature } && event == ExecutorEvent::Simulated(
            SimulationOutcome::AlreadyProcessed,
        )),
{
}

/// The executor never drops a pending signature, and adds one only when an
/// attempt is sent: the signature of that attempt.
pub proof fn lemma_pending_grows_only_by_sent(
    s: TransactionExecution,
    event: ExecutorEvent,
    pending: Seq<SignatureBytes>,
)
    ensures
        transition(s, event, pending).1 == pending || ({
            &&& event == ExecutorEvent::Sent
            &&& s.phase matches ExecutionPhase::Sending { signature }
                && transition(s, event, pending).1 == pending.push(signature)
        }),
{
}

/// The errors that say no attempt was sent come only when no signature is pending.
pub proof fn lemma_no_attempt_errors_only_when_nothing_sent(
    s: TransactionExecution,
    event: ExecutorEvent,
    pending: Seq<SignatureBytes>,
)
    requires
        !(s.phase is Finished),
        transition(s, event, pending).0.phase == ExecutionPhase::Finished(
            Err(ExecutionError::NoAttemptMade),
        ) || transition(s, event, pending).0.phase == ExecutionPhase::Finished(
            Err(ExecutionError::FirstAttemptRejected),
        ),
    ensures
        pending.len() == 0,
{
}

/// Along any run, the signatures added by the executor, plus the attempt under
/// way, never outnumber the attempts begun.
proof fn lemma_run_counts_sends(s: TransactionExecution, events: Seq<ExecutorEvent>, pending: Seq<SignatureBytes>, base: int)
    requires
        well_formed(s),
        0 <= base <= pending.len(),
        pending.len() - base + (if in_flight(s.phase) { 1int } else { 0 }) <= s.attempt,
    ensures
        well_formed(run(s, events, pending).0),
        run(s, events, pending).1.len() - base <= run(s, events, pending).0.attempt,
        run(s, events, pending).0.attempt <= s.max_attempts,
    decreases events.len(),
{
    if events.len() > 0 {
        let next = transition(s, events[0], pending);
        lemma_step_preserves_well_formed(s, events[0], pending);
        lemma_attempts_counted(s, events[0], pending);
        lemma_pending_grows_only_by_sent(s, events[0], pending);
        lemma_run_counts_sends(next.0, events.drop_first(), next.1, base);
    }
}

/// Whatever happens, an execution sends at most `max_attempts` transactions.
pub proof fn lemma_sends_bounded_by_max_attempts(max_attempts: u32, events: Seq<ExecutorEvent>)
    ensures
        run(initial(max_attempts), events, Seq::empty()).1.len() <= max_attempts,
{
    lemma_run_counts_sends(initial(max_attempts), events, Seq::empty(), 0);
}

/// Whether the loop over attempts is over in this phase.
pub open spec fn attempts_over(phase: ExecutionPhase) -> bool {
    phase is AwaitingFinalExecution || phase is Finished
}

/// Whether `event`, arriving in state `s`, is an item taken from the builder.
pub open spec fn is_pull(s: TransactionExecution, event: ExecutorEvent) -> bool {
    s.phase is AwaitingTransaction && event is TransactionBuilt
}

/// The number of items taken from the builder along a sequence of events.
pub open spec fn pulls(s: TransactionExecution, events: Seq<ExecutorEvent>, pending: Seq<SignatureBytes>) -> nat
    decreases events.len(),
{
    if events.len() == 0 {
        0
    } else {
        let next = transition(s, events[0], pending);
        (if is_pull(s, events[0]) { 1nat } else { 0nat }) + pulls(next.0, events.drop_first(), next.1)
    }
}

proof fn lemma_run_counts_pulls(
    s: TransactionExecution,
    events: Seq<ExecutorEvent>,
    pending: Seq<SignatureBytes>,
    taken: int,
)
    requires
        well_formed(s),
        0 <= taken <= s.attempt + (if attempts_over(s.phase) { 1int } else { 0 }),
    ensures
        taken + pulls(s, events, pending) <= s.max_attempts + 1,
    decreases events.len(),
{
    if events.len() > 0 {
        let next = transition(s, events[0], pending);
        lemma_step_preserves_well_formed(s, events[0], pending);
        lemma_attempts_counted(s, events[0], pending);
        let taken_next = taken + if is_pull(s, events[0]) { 1int } else { 0 };
        lemma_run_counts_pulls(next.0, events.drop_first(), next.1, taken_next);
    }
}

/// Whatever happens, an execution takes at most `max_attempts + 1` items
/// from the builder (the last one only to find the limit reached).
pub proof fn lemma_pulls_bounded(max_attempts: u32, events: Seq<ExecutorEvent>, pending: Seq<SignatureBytes>)
    ensures
        pulls(initial(max_attempts), events, pending) <= max_attempts + 1,
{
    lemma_run_counts_pulls(initial(max_attempts), events, pending, 0);
}

/// Whether `event`, arriving in state `s`, sends the attempt under way.
pub open spec fn is_send(s: TransactionExecution, event: ExecutorEvent) -> bool {
    s.phase is Sending && event == ExecutorEvent::Sent
}

/// The attempt numbers of the sends along a sequence of events, in order.
pub open spec fn sent_attempts(
    s: TransactionExecution,
    events: Seq<ExecutorEvent>,
    pending: Seq<SignatureBytes>,
) -> Seq<u32>
    decreases events.len(),
{
    if events.len() == 0 {
        Seq::empty()
    } else {
        let next = transition(s, events[0], pending);
        let rest = sent_attempts(next.0, events.drop_first(), next.1);
        if is_send(s, events[0]) {
            seq![s.attempt] + rest
        } else {
            rest
        }
    }
}

/// The smallest attempt number that a send from state `s` on can carry.
pub open spec fn next_sendable(s: TransactionExecution) -> int {
    if in_flight(s.phase) { s.attempt as int } else { s.attempt + 1 }
}

proof fn lemma_sent_attempts_from(s: TransactionExecution, events: Seq<ExecutorEvent>, pending: Seq<SignatureBytes>)
    requires
        well_formed(s),
    ensures
        forall|i: int|
            0 <= i < sent_attempts(s, events, pending).len() ==> next_sendable(s)
                <= #[trigger] sent_attempts(s, events, pending)[i] <= s.max_attempts,
        forall|i: int, j: int|
            0 <= i < j < sent_attempts(s, events, pending).len() ==> #[trigger] sent_attempts(s, events, pending)[i]
                < #[trigger] sent_attempts(s, events, pending)[j],
    decreases events.len(),
{
    if events.len() > 0 {
        let next = transition(s, events[0], pending);
        lemma_step_preserves_well_formed(s, events[0], pending);
        lemma_attempts_counted(s, events[0], pending);
        lemma_sent_attempts_from(next.0, events.drop_first(), next.1);
        let rest = sent_attempts(next.0, events.drop_first(), next.1);
        let all = sent_attempts(s, events, pending);
        assert(next.0.max_attempts == s.max_attempts);
        if is_send(s, events[0]) {
            assert(next_sendable(next.0) == s.attempt + 1);
            assert(all == seq![s.attempt] + rest);
            assert forall|i: int| 0 <= i < all.len() implies next_sendable(s) <= #[trigger] all[i] <= s.max_attempts by {
                if i > 0 {
                    assert(all[i] == rest[i - 1]);
                }
            }
            assert forall|i: int, j: int| 0 <= i < j < all.len() implies #[trigger] all[i] < #[trigger] all[j] by {
                assert(all[j] == rest[j - 1]);
                if i > 0 {
                    assert(all[i] == rest[i - 1]);
                }
            }
        } else {
            assert(next_sendable(next.0) >= next_sendable(s));
            assert(all == rest);
        }
    }
}

/// Along any run, every send carries an attempt number between 1 and
/// `max_attempts`, and the numbers of successive sends strictly increase: no
/// attempt is sent twice.
pub proof fn lemma_sends_strictly_increase(
    max_attempts: u32,
    events: Seq<ExecutorEvent>,
    pending: Seq<SignatureBytes>,
)
    ensures
        forall|i: int|
            0 <= i < sent_attempts(initial(max_attempts), events, pending).len() ==> 1
                <= #[trigger] sent_attempts(initial(max_attempts), events, pending)[i] <= max_attempts,
        forall|i: int, j: int|
            0 <= i < j < sent_attempts(initial(max_attempts), events, pending).len() ==> #[trigger] sent_attempts(
                initial(max_attempts),
                events,
                pending,
            )[i] < #[trigger] sent_attempts(initial(max_attempts), events, pending)[j],
{
    lemma_sent_attempts_from(initial(max_attempts), events, pending);
}

proof fn lemma_attempts_over_stays(s: TransactionExecution, events: Seq<ExecutorEvent>, pending: Seq<SignatureBytes>)
    requires
        attempts_over(s.phase),
    ensures
        attempts_over(run(s, events, pending).0.phase),
    decreases events.len(),
{
    if events.len() > 0 {
        let next = transition(s, events[0], pending);
        lemma_attempts_over_stays(next.0, events.drop_first(), next.1);
    }
}

proof fn lemma_attempt_counts_pulls_from(
    s: TransactionExecution,
    events: Seq<ExecutorEvent>,
    pending: Seq<SignatureBytes>,
)
    requires
        well_formed(s),
    ensures
        !attempts_over(run(s, events, pending).0.phase) ==> run(s, events, pending).0.attempt == s.attempt
            + pulls(s, events, pending),
    decreases events.len(),
{
    if events.len() > 0 {
        let next = transition(s, events[0], pending);
        lemma_step_preserves_well_formed(s, events[0], pending);
        lemma_attempts_counted(s, events[0], pending);
        lemma_attempt_counts_pulls_from(next.0, events.drop_first(), next.1);
        if is_pull(s, events[0]) && next.0.attempt == s.attempt {
            assert(attempts_over(next.0.phase));
            lemma_attempts_over_stays(next.0, events.drop_first(), next.1);
        }
    }
}

/// While the loop over attempts goes on, the attempt counter equals the number
/// of items taken from the builder: the `k`-th item is attempt `k`, and its
/// send (if any) carries `k`.
pub proof fn lemma_attempt_is_item_number(
    max_attempts: u32,
    events: Seq<ExecutorEvent>,
    pending: Seq<SignatureBytes>,
)
    ensures
        !attempts_over(run(initial(max_attempts), events, pending).0.phase) ==> run(
            initial(max_attempts),
            events,
            pending,
        ).0.attempt == pulls(initial(max_attempts), events, pending),
{
    lemma_attempt_counts_pulls_from(initial(max_attempts), events, pending);
}

/// A signature that the watcher reports as executed, while the executor waits
/// after an attempt or after the last one, ends the execution with that
/// signature as its success, whatever the attempt counter, the limit or the
/// pending signatures.
pub proof fn lemma_reported_execution_is_success(
    s: TransactionExecution,
    executed: SignatureBytes,
    pending: Seq<SignatureBytes>,
)
    requires
        s.phase is AwaitingExecution || s.phase is AwaitingFinalExecution,
    ensures
        transition(s, ExecutorEvent::Waited(WaitOutcome::Executed(executed)), pending).0.phase
            == ExecutionPhase::Finished(Ok(executed)),
        transition(s, ExecutorEvent::Waited(WaitOutcome::Executed(executed)), pending).1 == pending,
        action_of(transition(s, ExecutorEvent::Waited(WaitOutcome::Executed(executed)), pending).0)
            == ExecutorAction::Complete(Ok(executed)),
{
}

/// A simulation that finds the attempt already processed ends the execution
/// with the signature of that attempt as its success, whatever was sent
/// before and whatever the counter and the limit.
pub proof fn lemma_already_processed_is_success(
    s: TransactionExecution,
    signature: SignatureBytes,
    pending: Seq<SignatureBytes>,
)
    requires
        s.phase == (ExecutionPhase::Simulating { signature }),
    ensures
        transition(s, ExecutorEvent::Simulated(SimulationOutcome::AlreadyProcessed), pending).0.phase
            == ExecutionPhase::Finished(Ok(signature)),
        action_of(transition(s, ExecutorEvent::Simulated(SimulationOutcome::AlreadyProcessed), pending).0)
            == ExecutorAction::Complete(Ok(signature)),
{
}

/// What the next item from the builder does. Below the limit it begins a new
/// attempt (the counter goes up by one): a built transaction is simulated
/// next, an error ends the execution as a build failure. When the builder is
/// exhausted, or the limit is reached (whatever the item), the loop is over:
/// with nothing pending the execution fails for want of any attempt,
/// otherwise it waits a last time.
pub proof fn lemma_pull_outcomes(s: TransactionExecution, outcome: BuildOutcome, pending: Seq<SignatureBytes>)
    requires
        s.phase is AwaitingTransaction,
    ensures
        ({
            let next = transition(s, ExecutorEvent::TransactionBuilt(outcome), pending);
            &&& next.1 == pending
            &&& next.0.max_attempts == s.max_attempts
            &&& (outcome is Exhausted || s.attempt >= s.max_attempts) ==> {
                &&& next.0.attempt == s.attempt
                &&& pending.len() == 0 ==> next.0.phase == ExecutionPhase::Finished(
                    Err(ExecutionError::NoAttemptMade),
                )
                &&& pending.len() > 0 ==> next.0.phase == ExecutionPhase::AwaitingFinalExecution
            }
            &&& (!(outcome is Exhausted) && s.attempt < s.max_attempts) ==> {
                &&& next.0.attempt == s.attempt + 1
                &&& outcome matches BuildOutcome::Built(x) ==> next.0.phase
                    == (ExecutionPhase::Simulating { signature: x })
                &&& outcome is Failed ==> next.0.phase == ExecutionPhase::Finished(
                    Err(ExecutionError::BuildFailed),
                )
            }
        }),
{
}

/// What the simulation of the attempt `signature` does: success leads to its
/// send; an unknown blockhash to the next item without a send; an unavailable
/// simulation ends the execution; any other error ends it when nothing is
/// pending and otherwise ends the loop with a last wait. Nothing else changes.
pub proof fn lemma_simulation_outcomes(
    s: TransactionExecution,
    signature: SignatureBytes,
    outcome: SimulationOutcome,
    pending: Seq<SignatureBytes>,
)
    requires
        s.phase == (ExecutionPhase::Simulating { signature }),
    ensures
        ({
            let next = transition(s, ExecutorEvent::Simulated(outcome), pending);
            &&& next.1 == pending
            &&& next.0.attempt == s.attempt
            &&& next.0.max_attempts == s.max_attempts
            &&& outcome is Succeeded ==> next.0.phase == (ExecutionPhase::Sending { signature })
            &&& outcome is BlockhashNotFound ==> next.0.phase == ExecutionPhase::AwaitingTransaction
            &&& outcome is Unavailable ==> next.0.phase == ExecutionPhase::Finished(
                Err(ExecutionError::SimulationUnavailable),
            )
            &&& (outcome is Rejected && pending.len() == 0) ==> next.0.phase == ExecutionPhase::Finished(
                Err(ExecutionError::FirstAttemptRejected),
            )
            &&& (outcome is Rejected && pending.len() > 0) ==> next.0.phase
                == ExecutionPhase::AwaitingFinalExecution
        }),
{
}

/// Sending the attempt `signature` makes it pending, at the end, and waits for
/// an executed signature; the counter and the limit stay.
pub proof fn lemma_send_outcome(s: TransactionExecution, signature: SignatureBytes, pending: Seq<SignatureBytes>)
    requires
        s.phase == (ExecutionPhase::Sending { signature }),
    ensures
        transition(s, ExecutorEvent::Sent, pending).1 == pending.push(signature),
        transition(s, ExecutorEvent::Sent, pending).0 == (TransactionExecution {
            phase: ExecutionPhase::AwaitingExecution { signature },
            ..s
        }),
{
}

/// Waiting after an attempt without news (time out, or the watcher gone) goes
/// on to the next item; after the last attempt, it ends the execution with
/// the matching error. Pending signatures, counter and limit stay.
pub proof fn lemma_wait_without_news(s: TransactionExecution, pending: Seq<SignatureBytes>)
    ensures
        s.phase is AwaitingExecution ==> transition(s, ExecutorEvent::Waited(WaitOutcome::TimedOut), pending)
            == (TransactionExecution { phase: ExecutionPhase::AwaitingTransaction, ..s }, pending),
        s.phase is AwaitingExecution ==> transition(s, ExecutorEvent::Waited(WaitOutcome::ChannelClosed), pending)
            == (TransactionExecution { phase: ExecutionPhase::AwaitingTransaction, ..s }, pending),
        s.phase is AwaitingFinalExecution ==> transition(
            s,
            ExecutorEvent::Waited(WaitOutcome::TimedOut),
            pending,
        ) == (TransactionExecution {
            phase: ExecutionPhase::Finished(Err(ExecutionError::TimedOut)),
            ..s
        }, pending),
        s.phase is AwaitingFinalExecution ==> transition(
            s,
            ExecutorEvent::Waited(WaitOutcome::ChannelClosed),
            pending,
        ) == (TransactionExecution {
            phase: ExecutionPhase::Finished(Err(ExecutionError::NoTransactionExecuted)),
            ..s
        }, pending),
{
}

/// An event that the phase does not wait for changes nothing.
pub proof fn lemma_unexpected_event_ignored(s: TransactionExecution, event: ExecutorEvent, pending: Seq<SignatureBytes>)
    requires
        !(s.phase is AwaitingTransaction && event is TransactionBuilt),
        !(s.phase is Simulating && event is Simulated),
        !(s.phase is Sending && event is Sent),
        !((s.phase is AwaitingExecution || s.phase is AwaitingFinalExecution) && event is Waited),
    ensures
        transition(s, event, pending) == (s, pending),
{
}

/// What each phase asks the caller to do: pull in the loop, simulate or send
/// the attempt under way (a send carrying the attempt counter), wait, or stop
/// with the result.
pub proof fn lemma_actions(s: TransactionExecution)
    ensures
        s.phase is AwaitingTransaction ==> action_of(s) == ExecutorAction::PullTransaction,
        s.phase matches ExecutionPhase::Simulating { signature } ==> action_of(s) == (ExecutorAction::Simulate {
            signature,
        }),
        s.phase matches ExecutionPhase::Sending { signature } ==> action_of(s) == (ExecutorAction::Send {
            signature,
            meta: SendTransactionMeta { attempt: s.attempt },
        }),
        s.phase matches ExecutionPhase::AwaitingExecution { signature } ==> action_of(s) == (
        ExecutorAction::AwaitExecution { signature }),
        s.phase is AwaitingFinalExecution ==> action_of(s) == ExecutorAction::AwaitFinalExecution,
        s.phase matches ExecutionPhase::Finished(result) ==> action_of(s) == ExecutorAction::Complete(result),
{
}

} // verus!
