# transaction_executor

Retry policies and the decision logic of an executor that keeps re-submitting
a Solana transaction until one of its attempts lands, verified with Verus.

- `src/arith.rs` — saturating multiplication and exponentiation on `u64`.
- `src/tip_policy.rs` — a tip that grows geometrically per attempt, capped.
- `src/priority_fee_policy.rs` — the compute-unit price per attempt and the
  compute-budget instruction that sets it.
- `src/signature_watch.rs` — signatures of sent attempts, their reported
  statuses, the commitment filter and what the background watcher decides.
- `src/transaction_executor.rs` — the retry loop as a state machine from
  event to next state and action, with its laws (bounded attempts, progress,
  where a returned signature comes from).
- `src/transaction_executor_builder.rs` — send metadata and the growing-tip
  relay request (JSON-RPC body, tip of the attempt).
- `src/transaction_executor_config.rs` — intervals and the attempt limit.
- `app/` — the asynchronous shell: RPC providers, the watcher task, the loop
  that performs each action, and the builder.
