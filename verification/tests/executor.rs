use transaction_executor::signature_watch::{PendingSignatures, SignatureBytes};
use transaction_executor::transaction_executor::{
    BuildOutcome, ExecutionError, ExecutionPhase, ExecutorAction, ExecutorEvent, SimulationOutcome,
    TransactionExecution, WaitOutcome,
};
use transaction_executor::transaction_executor_builder::SendTransactionMeta;

fn sig(b: u8) -> SignatureBytes {
    SignatureBytes { bytes: [b; 64] }
}

fn built(b: u8) -> ExecutorEvent {
    ExecutorEvent::TransactionBuilt(BuildOutcome::Built(sig(b)))
}

fn simulated(o: SimulationOutcome) -> ExecutorEvent {
    ExecutorEvent::Simulated(o)
}

fn waited(o: WaitOutcome) -> ExecutorEvent {
    ExecutorEvent::Waited(o)
}

/// Feeds events, returning the last action.
fn feed(exec: &mut TransactionExecution, pending: &mut PendingSignatures, events: &[ExecutorEvent]) -> ExecutorAction {
    let mut action = exec.next_action();
    for e in events {
        action = exec.step(*e, pending);
    }
    action
}

#[test]
fn new_execution_pulls_first() {
    let exec = TransactionExecution::new(3);
    assert_eq!(exec.attempt, 0);
    assert_eq!(exec.max_attempts, 3);
    assert_eq!(exec.phase, ExecutionPhase::AwaitingTransaction);
    assert_eq!(exec.next_action(), ExecutorAction::PullTransaction);
}

#[test]
fn first_attempt_executes() {
    let mut exec = TransactionExecution::new(3);
    let mut pending = PendingSignatures::new();
    assert_eq!(exec.step(built(1), &mut pending), ExecutorAction::Simulate { signature: sig(1) });
    assert_eq!(
        exec.step(simulated(SimulationOutcome::Succeeded), &mut pending),
        ExecutorAction::Send { signature: sig(1), meta: SendTransactionMeta { attempt: 1 } }
    );
    assert!(pending.is_empty());
    assert_eq!(exec.step(ExecutorEvent::Sent, &mut pending), ExecutorAction::AwaitExecution { signature: sig(1) });
    assert_eq!(pending.snapshot(), vec![sig(1)]);
    assert_eq!(
        exec.step(waited(WaitOutcome::Executed(sig(1))), &mut pending),
        ExecutorAction::Complete(Ok(sig(1)))
    );
}

#[test]
fn timeout_leads_to_the_next_attempt_with_its_number() {
    let mut exec = TransactionExecution::new(3);
    let mut pending = PendingSignatures::new();
    let action = feed(
        &mut exec,
        &mut pending,
        &[
            built(1),
            simulated(SimulationOutcome::Succeeded),
            ExecutorEvent::Sent,
            waited(WaitOutcome::TimedOut),
            built(2),
            simulated(SimulationOutcome::Succeeded),
        ],
    );
    assert_eq!(action, ExecutorAction::Send { signature: sig(2), meta: SendTransactionMeta { attempt: 2 } });
    let action = feed(&mut exec, &mut pending, &[ExecutorEvent::Sent, waited(WaitOutcome::Executed(sig(1)))]);
    assert_eq!(action, ExecutorAction::Complete(Ok(sig(1))));
    assert_eq!(pending.snapshot(), vec![sig(1), sig(2)]);
}

#[test]
fn already_processed_returns_the_simulated_signature() {
    let mut exec = TransactionExecution::new(3);
    let mut pending = PendingSignatures::new();
    let action = feed(&mut exec, &mut pending, &[built(7), simulated(SimulationOutcome::AlreadyProcessed)]);
    assert_eq!(action, ExecutorAction::Complete(Ok(sig(7))));
}

#[test]
fn missing_blockhash_moves_on_without_sending() {
    let mut exec = TransactionExecution::new(3);
    let mut pending = PendingSignatures::new();
    let action = feed(&mut exec, &mut pending, &[built(1), simulated(SimulationOutcome::BlockhashNotFound)]);
    assert_eq!(action, ExecutorAction::PullTransaction);
    assert_eq!(exec.attempt, 1);
    assert!(pending.is_empty());
}

#[test]
fn attempts_beyond_the_limit_end_the_loop() {
    let mut exec = TransactionExecution::new(2);
    let mut pending = PendingSignatures::new();
    let action = feed(
        &mut exec,
        &mut pending,
        &[
            built(1),
            simulated(SimulationOutcome::Succeeded),
            ExecutorEvent::Sent,
            waited(WaitOutcome::TimedOut),
            built(2),
            simulated(SimulationOutcome::BlockhashNotFound),
            built(3),
        ],
    );
    assert_eq!(action, ExecutorAction::AwaitFinalExecution);
    assert_eq!(exec.attempt, 2);
    assert_eq!(
        exec.step(waited(WaitOutcome::TimedOut), &mut pending),
        ExecutorAction::Complete(Err(ExecutionError::TimedOut))
    );
}

#[test]
fn limit_reached_without_any_send() {
    let mut exec = TransactionExecution::new(1);
    let mut pending = PendingSignatures::new();
    let action =
        feed(&mut exec, &mut pending, &[built(1), simulated(SimulationOutcome::BlockhashNotFound), built(2)]);
    assert_eq!(action, ExecutorAction::Complete(Err(ExecutionError::NoAttemptMade)));
}

#[test]
fn zero_attempts_allowed() {
    let mut exec = TransactionExecution::new(0);
    let mut pending = PendingSignatures::new();
    assert_eq!(exec.step(built(1), &mut pending), ExecutorAction::Complete(Err(ExecutionError::NoAttemptMade)));
}

#[test]
fn exhausted_builder_without_sends() {
    let mut exec = TransactionExecution::new(5);
    let mut pending = PendingSignatures::new();
    let action = exec.step(ExecutorEvent::TransactionBuilt(BuildOutcome::Exhausted), &mut pending);
    assert_eq!(action, ExecutorAction::Complete(Err(ExecutionError::NoAttemptMade)));
    assert_eq!(exec.attempt, 0);
}

#[test]
fn exhausted_builder_after_a_send_waits_once_more() {
    let mut exec = TransactionExecution::new(5);
    let mut pending = PendingSignatures::new();
    let action = feed(
        &mut exec,
        &mut pending,
        &[
            built(1),
            simulated(SimulationOutcome::Succeeded),
            ExecutorEvent::Sent,
            waited(WaitOutcome::ChannelClosed),
            ExecutorEvent::TransactionBuilt(BuildOutcome::Exhausted),
        ],
    );
    assert_eq!(action, ExecutorAction::AwaitFinalExecution);
    assert_eq!(
        exec.step(waited(WaitOutcome::Executed(sig(1))), &mut pending),
        ExecutorAction::Complete(Ok(sig(1)))
    );
}

#[test]
fn final_wait_with_closed_channel() {
    let mut exec = TransactionExecution::new(1);
    let mut pending = PendingSignatures::new();
    let action = feed(
        &mut exec,
        &mut pending,
        &[
            built(1),
            simulated(SimulationOutcome::Succeeded),
            ExecutorEvent::Sent,
            waited(WaitOutcome::TimedOut),
            built(2),
            waited(WaitOutcome::ChannelClosed),
        ],
    );
    assert_eq!(action, ExecutorAction::Complete(Err(ExecutionError::NoTransactionExecuted)));
}

#[test]
fn build_error_ends_the_execution() {
    let mut exec = TransactionExecution::new(3);
    let mut pending = PendingSignatures::new();
    let action = exec.step(ExecutorEvent::TransactionBuilt(BuildOutcome::Failed), &mut pending);
    assert_eq!(action, ExecutorAction::Complete(Err(ExecutionError::BuildFailed)));
    assert_eq!(exec.attempt, 1);
}

#[test]
fn build_error_beyond_the_limit_is_not_seen() {
    let mut exec = TransactionExecution::new(0);
    let mut pending = PendingSignatures::new();
    let action = exec.step(ExecutorEvent::TransactionBuilt(BuildOutcome::Failed), &mut pending);
    assert_eq!(action, ExecutorAction::Complete(Err(ExecutionError::NoAttemptMade)));
}

#[test]
fn unavailable_simulation_ends_the_execution() {
    let mut exec = TransactionExecution::new(3);
    let mut pending = PendingSignatures::new();
    let action = feed(&mut exec, &mut pending, &[built(1), simulated(SimulationOutcome::Unavailable)]);
    assert_eq!(action, ExecutorAction::Complete(Err(ExecutionError::SimulationUnavailable)));
}

#[test]
fn rejected_first_attempt_fails() {
    let mut exec = TransactionExecution::new(3);
    let mut pending = PendingSignatures::new();
    let action = feed(&mut exec, &mut pending, &[built(1), simulated(SimulationOutcome::Rejected)]);
    assert_eq!(action, ExecutorAction::Complete(Err(ExecutionError::FirstAttemptRejected)));
}

#[test]
fn rejected_later_attempt_waits_for_earlier_ones() {
    let mut exec = TransactionExecution::new(3);
    let mut pending = PendingSignatures::new();
    let action = feed(
        &mut exec,
        &mut pending,
        &[
            built(1),
            simulated(SimulationOutcome::Succeeded),
            ExecutorEvent::Sent,
            waited(WaitOutcome::TimedOut),
            built(2),
            simulated(SimulationOutcome::Rejected),
        ],
    );
    assert_eq!(action, ExecutorAction::AwaitFinalExecution);
}

#[test]
fn rejected_attempt_after_failed_sends_were_dropped() {
    let mut exec = TransactionExecution::new(3);
    let mut pending = PendingSignatures::new();
    feed(
        &mut exec,
        &mut pending,
        &[built(1), simulated(SimulationOutcome::Succeeded), ExecutorEvent::Sent, waited(WaitOutcome::TimedOut)],
    );
    pending.discard_failed(&vec![sig(1)]);
    let action = feed(&mut exec, &mut pending, &[built(2), simulated(SimulationOutcome::Rejected)]);
    assert_eq!(action, ExecutorAction::Complete(Err(ExecutionError::FirstAttemptRejected)));
}

#[test]
fn unexpected_events_change_nothing() {
    let mut exec = TransactionExecution::new(3);
    let mut pending = PendingSignatures::new();
    let before = exec;
    assert_eq!(exec.step(ExecutorEvent::Sent, &mut pending), ExecutorAction::PullTransaction);
    assert_eq!(exec.step(waited(WaitOutcome::Executed(sig(1))), &mut pending), ExecutorAction::PullTransaction);
    assert_eq!(exec, before);
    assert!(pending.is_empty());
}

#[test]
fn finished_execution_ignores_events() {
    let mut exec = TransactionExecution::new(3);
    let mut pending = PendingSignatures::new();
    feed(&mut exec, &mut pending, &[built(1), simulated(SimulationOutcome::AlreadyProcessed)]);
    let done = exec;
    for e in [built(2), ExecutorEvent::Sent, waited(WaitOutcome::TimedOut), simulated(SimulationOutcome::Succeeded)] {
        assert_eq!(exec.step(e, &mut pending), ExecutorAction::Complete(Ok(sig(1))));
    }
    assert_eq!(exec, done);
}

#[test]
fn sends_never_outnumber_the_attempt_limit() {
    for max in 0..5u32 {
        let mut exec = TransactionExecution::new(max);
        let mut pending = PendingSignatures::new();
        let mut steps = 0;
        let mut pulls = 0u32;
        let mut b = 0u8;
        loop {
            let event = match exec.next_action() {
                ExecutorAction::PullTransaction => {
                    pulls += 1;
                    b += 1;
                    built(b)
                }
                ExecutorAction::Simulate { .. } => simulated(SimulationOutcome::Succeeded),
                ExecutorAction::Send { meta, .. } => {
                    assert!(meta.attempt >= 1 && meta.attempt <= max);
                    ExecutorEvent::Sent
                }
                ExecutorAction::AwaitExecution { .. } | ExecutorAction::AwaitFinalExecution => {
                    waited(WaitOutcome::TimedOut)
                }
                ExecutorAction::Complete(result) => {
                    if max == 0 {
                        assert_eq!(result, Err(ExecutionError::NoAttemptMade));
                    } else {
                        assert_eq!(result, Err(ExecutionError::TimedOut));
                    }
                    break;
                }
            };
            exec.step(event, &mut pending);
            steps += 1;
        }
        assert_eq!(pending.len(), max as usize);
        assert!(steps <= 6 * max as usize + 2);
        assert_eq!(pulls, max + 1);
    }
}

#[test]
fn send_numbers_strictly_increase_and_match_the_item_number() {
    let mut exec = TransactionExecution::new(4);
    let mut pending = PendingSignatures::new();
    let mut sends = Vec::new();
    let mut item = 0u8;
    loop {
        let event = match exec.next_action() {
            ExecutorAction::PullTransaction => {
                item += 1;
                built(item)
            }
            ExecutorAction::Simulate { .. } => {
                if item == 2 {
                    simulated(SimulationOutcome::BlockhashNotFound)
                } else {
                    simulated(SimulationOutcome::Succeeded)
                }
            }
            ExecutorAction::Send { signature, meta } => {
                assert_eq!(signature, sig(meta.attempt as u8));
                sends.push(meta.attempt);
                ExecutorEvent::Sent
            }
            ExecutorAction::AwaitExecution { .. } | ExecutorAction::AwaitFinalExecution => {
                waited(WaitOutcome::TimedOut)
            }
            ExecutorAction::Complete(_) => break,
        };
        exec.step(event, &mut pending);
    }
    assert_eq!(sends, vec![1, 3, 4]);
}
