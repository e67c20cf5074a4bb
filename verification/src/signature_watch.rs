//! Signatures of sent attempts, their reported statuses, and what the
//! background watcher decides from one round of status reports.

use vstd::prelude::*;

verus! {

/// The outcome of a transaction as reported by the cluster: carried through
/// unread, apart from whether it is an error.
#[verifier::external_type_specification]
#[verifier::external_body]
pub struct ExTransactionError(solana_sdk::transaction::TransactionError);

/// The 64 bytes of a transaction signature.
#[derive(Clone, Copy, Debug, PartialEq, Eq)]
pub struct SignatureBytes {
    pub bytes: [u8; 64],
}

impl SignatureBytes {
    /// Byte-wise equality of two signatures.
    pub fn same_as(&self, other: &SignatureBytes) -> (r: bool)
        ensures
            r == (*self == *other),
    {
        broadcast use vstd::array::group_array_axioms;

        let mut i: usize = 0;
        while i < 64
            invariant
                i <= 64,
                forall|j: int| 0 <= j < i ==> self.bytes[j] == other.bytes[j],
            decreases 64 - i,
        {
            if self.bytes[i] != other.bytes[i] {
                return false;
            }
            i = i + 1;
        }
        assert(self.bytes =~= other.bytes);
        true
    }
}

/// Whether `s` occurs in `list`.
pub fn contains_signature(list: &Vec<SignatureBytes>, s: &SignatureBytes) -> (r: bool)
    ensures
        r == list@.contains(*s),
{
    let mut i: usize = 0;
    while i < list.len()
        invariant
            i <= list@.len(),
            forall|j: int| 0 <= j < i ==> list@[j] != *s,
        decreases list@.len() - i,
    {
        if list[i].same_as(s) {
            assert(list@[i as int] == *s);
            return true;
        }
        i = i + 1;
    }
    false
}

/// The signatures of `list` that do not occur in `removed`, in their order.
pub open spec fn retained(list: Seq<SignatureBytes>, removed: Seq<SignatureBytes>) -> Seq<SignatureBytes>
    decreases list.len(),
{
    if list.len() == 0 {
        Seq::empty()
    } else {
        let rest = retained(list.drop_last(), removed);
        if removed.contains(list.last()) {
            rest
        } else {
            rest.push(list.last())
        }
    }
}

/// The signatures of the attempts sent so far and not yet known to have failed.
#[derive(Debug)]
pub struct PendingSignatures {
    signatures: Vec<SignatureBytes>,
}

impl View for PendingSignatures {
    type V = Seq<SignatureBytes>;

    closed spec fn view(&self) -> Seq<SignatureBytes> {
        self.signatures@
    }
}

impl PendingSignatures {
    /// No signature pending.
    pub fn new() -> (r: Self)
        ensures
            r@ == Seq::<SignatureBytes>::empty(),
    {
        PendingSignatures { signatures: Vec::new() }
    }

    /// Whether no signature is pending.
    pub fn is_empty(&self) -> (r: bool)
        ensures
            r == (self@.len() == 0),
    {
        self.signatures.len() == 0
    }

    /// Number of pending signatures.
    pub fn len(&self) -> (r: usize)
        ensures
            r == self@.len(),
    {
        self.signatures.len()
    }

    /// Records the signature of an attempt that was just sent.
    pub fn record(&mut self, signature: SignatureBytes)
        ensures
            final(self)@ == old(self)@.push(signature),
    {
        self.signatures.push(signature);
    }

    /// A copy of the pending signatures, in the order they were sent.
    pub fn snapshot(&self) -> (r: Vec<SignatureBytes>)
        ensures
            r@ == self@,
    {
        let mut out: Vec<SignatureBytes> = Vec::new();
        let mut i: usize = 0;
        while i < self.signatures.len()
            invariant
                i <= self.signatures@.len(),
                out@ == self.signatures@.take(i as int),
            decreases self.signatures@.len() - i,
        {
            out.push(self.signatures[i]);
            i = i + 1;
            assert(out@ =~= self.signatures@.take(i as int));
        }
        assert(self.signatures@.take(i as int) =~= self.signatures@);
        out
    }

    /// Drops every pending signature that occurs in `failed`, keeping the
    /// order of the others.
    pub fn discard_failed(&mut self, failed: &Vec<SignatureBytes>)
        ensures
            final(self)@ == retained(old(self)@, failed@),
    {
        let ghost old_list = self.signatures@;
        let mut kept: Vec<SignatureBytes> = Vec::new();
        let mut i: usize = 0;
        while i < self.signatures.len()
            invariant
                i <= self.signatures@.len(),
                self.signatures@ == old_list,
                kept@ == retained(old_list.take(i as int), failed@),
            decreases self.signatures@.len() - i,
        {
            let s = self.signatures[i];
            assert(old_list.take(i + 1).drop_last() =~= old_list.take(i as int));
            assert(old_list.take(i + 1).last() == s);
            if !contains_signature(failed, &s) {
                kept.push(s);
            }
            i = i + 1;
        }
        assert(old_list.take(i as int) =~= old_list);
        self.signatures = kept;
    }
}

/// How far the cluster has confirmed a transaction.
#[derive(Clone, Copy, Debug, PartialEq, Eq, Structural)]
pub enum ConfirmationStatus {
    Processed,
    Confirmed,
    Finalized,
}

/// The commitment that a status must reach to count: the levels of a
/// commitment configuration, with the deprecated aliases folded into the
/// level they stand for.
#[derive(Clone, Copy, Debug, PartialEq, Eq, Structural)]
pub enum CommitmentTier {
    Processed,
    Confirmed,
    Finalized,
}

/// The status of one transaction signature as the cluster reports it.
#[derive(Debug)]
pub struct SignatureStatus {
    pub slot: u64,
    /// `None` once the block is rooted.
    pub confirmations: Option<usize>,
    pub status: Result<(), solana_sdk::transaction::TransactionError>,
    pub err: Option<solana_sdk::transaction::TransactionError>,
    pub confirmation_status: Option<ConfirmationStatus>,
}

/// Whether a reported status has reached the commitment `tier`.
pub open spec fn satisfies_commitment(status: SignatureStatus, tier: CommitmentTier) -> bool {
    match tier {
        CommitmentTier::Finalized => status.confirmations is None,
        CommitmentTier::Confirmed => match status.confirmation_status {
            Some(level) => level != ConfirmationStatus::Processed,
            None => match status.confirmations {
                Some(n) => n > 1,
                None => true,
            },
        },
        CommitmentTier::Processed => true,
    }
}

impl SignatureStatus {
    /// Whether this status has reached the commitment `tier`.
    pub fn satisfies_commitment(&self, tier: CommitmentTier) -> (r: bool)
        ensures
            r == satisfies_commitment(*self, tier),
    {
        match tier {
            CommitmentTier::Finalized => self.confirmations.is_none(),
            CommitmentTier::Confirmed => match self.confirmation_status {
                Some(level) => !matches!(level, ConfirmationStatus::Processed),
                None => match self.confirmations {
                    Some(n) => n > 1,
                    None => true,
                },
            },
            CommitmentTier::Processed => true,
        }
    }
}

/// The report at one position after statuses below the commitment are
/// replaced by `None`.
pub open spec fn committed(report: Option<SignatureStatus>, tier: CommitmentTier) -> Option<SignatureStatus> {
    match report {
        Some(status) => if satisfies_commitment(status, tier) { Some(status) } else { None },
        None => None,
    }
}

/// Replaces every status that has not reached the commitment `tier` by `None`,
/// position by position.
pub fn retain_committed(statuses: Vec<Option<SignatureStatus>>, tier: CommitmentTier) -> (r: Vec<
    Option<SignatureStatus>,
>)
    ensures
        r@.len() == statuses@.len(),
        forall|i: int| 0 <= i < r@.len() ==> #[trigger] r@[i] == committed(statuses@[i], tier),
{
    let mut reports = statuses;
    let ghost original = reports@;
    let mut i: usize = 0;
    while i < reports.len()
        invariant
            i <= reports@.len(),
            reports@.len() == original.len(),
            forall|j: int| 0 <= j < i ==> #[trigger] reports@[j] == committed(original[j], tier),
            forall|j: int| i <= j < reports@.len() ==> #[trigger] reports@[j] == original[j],
        decreases reports@.len() - i,
    {
        let keep = match &reports[i] {
            Some(status) => status.satisfies_commitment(tier),
            None => false,
        };
        if !keep {
            reports[i] = None;
        }
        i = i + 1;
    }
    reports
}

/// Whether the report at position `i` says that the transaction succeeded.
pub open spec fn succeeded_at(statuses: Seq<Option<SignatureStatus>>, i: int) -> bool {
    statuses[i] matches Some(status) && status.status is Ok
}

/// Whether the report at position `i` says that the transaction failed.
pub open spec fn failed_at(statuses: Seq<Option<SignatureStatus>>, i: int) -> bool {
    statuses[i] matches Some(status) && status.status is Err
}

/// The signatures among the first `n` pairs whose transaction failed, in order.
pub open spec fn failed_among(
    signatures: Seq<SignatureBytes>,
    statuses: Seq<Option<SignatureStatus>>,
    n: int,
) -> Seq<SignatureBytes>
    decreases n,
{
    if n <= 0 {
        Seq::empty()
    } else {
        let rest = failed_among(signatures, statuses, n - 1);
        if failed_at(statuses, n - 1) {
            rest.push(signatures[n - 1])
        } else {
            rest
        }
    }
}

/// Number of signature/status pairs that one round of reports covers.
pub open spec fn paired(signatures: Seq<SignatureBytes>, statuses: Seq<Option<SignatureStatus>>) -> int {
    if signatures.len() <= statuses.len() { signatures.len() as int } else { statuses.len() as int }
}

/// What the watcher concludes from one round of status reports.
#[derive(Debug)]
pub enum WatchOutcome {
    /// A sent attempt succeeded: this is its signature.
    Executed(SignatureBytes),
    /// None succeeded: these signatures failed and are to be dropped.
    Pending { failed: Vec<SignatureBytes> },
}

/// Pairs the signatures with their reports in order (as far as both go),
/// skips signatures with no report, and stops at the first success; without
/// one, collects the signatures whose transaction failed.
pub fn assess_statuses(signatures: &Vec<SignatureBytes>, statuses: &Vec<Option<SignatureStatus>>) -> (r:
    WatchOutcome)
    ensures
        (r is Executed) <==> (exists|i: int| 0 <= i < paired(signatures@, statuses@) && succeeded_at(statuses@, i)),
        r matches WatchOutcome::Executed(s) ==> exists|i: int|
            0 <= i < paired(signatures@, statuses@) && succeeded_at(statuses@, i) && s == signatures@[i]
                && forall|j: int| 0 <= j < i ==> !succeeded_at(statuses@, j),
        r matches WatchOutcome::Pending { failed } ==> failed@ == failed_among(
            signatures@,
            statuses@,
            paired(signatures@, statuses@),
        ),
{
    let n: usize = if signatures.len() <= statuses.len() { signatures.len() } else { statuses.len() };
    let mut failed: Vec<SignatureBytes> = Vec::new();
    let mut i: usize = 0;
    while i < n
        invariant
            n == paired(signatures@, statuses@),
            i <= n,
            n <= signatures@.len(),
            n <= statuses@.len(),
            failed@ == failed_among(signatures@, statuses@, i as int),
            forall|j: int| 0 <= j < i ==> !succeeded_at(statuses@, j),
        decreases n - i,
    {
        match &statuses[i] {
            Some(status) => {
                if status.status.is_ok() {
                    assert(succeeded_at(statuses@, i as int));
                    return WatchOutcome::Executed(signatures[i]);
                } else {
                    failed.push(signatures[i]);
                }
            },
            None => {},
        }
        i = i + 1;
    }
    WatchOutcome::Pending { failed }
}

/// After the failures are dropped, a signature is pending exactly when it was
/// pending before and is not among the failures.
pub proof fn lemma_retained_membership(list: Seq<SignatureBytes>, removed: Seq<SignatureBytes>, s: SignatureBytes)
    ensures
        retained(list, removed).contains(s) <==> (list.contains(s) && !removed.contains(s)),
    decreases list.len(),
{
    if list.len() > 0 {
        let init = list.drop_last();
        lemma_retained_membership(init, removed, s);
        assert(list =~= init.push(list.last()));
        if list.contains(s) && s != list.last() {
            let i = choose|i: int| 0 <= i < list.len() && list[i] == s;
            assert(i < init.len() && init[i] == s);
        }
        if init.contains(s) {
            let i = choose|i: int| 0 <= i < init.len() && init[i] == s;
            assert(list[i] == s);
        }
        let rest = retained(init, removed);
        if rest.contains(s) {
            let i = choose|i: int| 0 <= i < rest.len() && rest[i] == s;
            assert(rest.push(list.last())[i] == s);
        }
        if !removed.contains(list.last()) && s == list.last() {
            assert(rest.push(list.last())[rest.len() as int] == s);
        }
        if !removed.contains(list.last()) && rest.push(list.last()).contains(s) && s != list.last() {
            let i = choose|i: int| 0 <= i < rest.len() + 1 && rest.push(list.last())[i] == s;
            assert(i < rest.len() && rest[i] == s);
        }
    }
}

/// Every signature that the watcher collects as failed is one of the signatures
/// it was given, and its report says that the transaction failed.
pub proof fn lemma_failed_among_are_failed(
    signatures: Seq<SignatureBytes>,
    statuses: Seq<Option<SignatureStatus>>,
    n: int,
    k: int,
)
    requires
        0 <= k < failed_among(signatures, statuses, n).len(),
    ensures
        exists|i: int| #![auto] 0 <= i < n && failed_at(statuses, i) && signatures[i] == failed_among(signatures, statuses, n)[k],
    decreases n,
{
    if n > 0 {
        let rest = failed_among(signatures, statuses, n - 1);
        if k < rest.len() {
            lemma_failed_among_are_failed(signatures, statuses, n - 1, k);
            let i = choose|i: int| #![auto] 0 <= i < n - 1 && failed_at(statuses, i) && signatures[i] == rest[k];
            assert(0 <= i < n && failed_at(statuses, i) && signatures[i] == failed_among(signatures, statuses, n)[k]);
        } else {
            assert(failed_at(statuses, n - 1) && signatures[n - 1] == failed_among(signatures, statuses, n)[k]);
        }
    }
}

/// One round pairs every signature that has a report: as many pairs as the
/// shorter of the two lists.
pub proof fn lemma_paired_is_shorter_length(signatures: Seq<SignatureBytes>, statuses: Seq<Option<SignatureStatus>>)
    ensures
        paired(signatures, statuses) <= signatures.len(),
        paired(signatures, statuses) <= statuses.len(),
        signatures.len() <= statuses.len() ==> paired(signatures, statuses) == signatures.len(),
        statuses.len() <= signatures.len() ==> paired(signatures, statuses) == statuses.len(),
{
}

/// Whether `report` is a success, read directly from the report.
pub open spec fn reports_success(report: Option<SignatureStatus>) -> bool {
    match report {
        Some(status) => match status.status {
            Ok(_) => true,
            Err(_) => false,
        },
        None => false,
    }
}

/// A signature is reported as executed exactly when one of the signatures that
/// has a report succeeded; it is the first such signature. In particular,
/// with one report per signature, a success reported for the last signature
/// alone is found.
pub proof fn lemma_assessment_reads_every_pair(
    signatures: Seq<SignatureBytes>,
    statuses: Seq<Option<SignatureStatus>>,
)
    ensures
        (exists|i: int| 0 <= i < paired(signatures, statuses) && succeeded_at(statuses, i)) <==> (exists|i: int|
            0 <= i < signatures.len() && i < statuses.len() && #[trigger] reports_success(statuses[i])),
        forall|i: int|
            0 <= i < signatures.len() && i < statuses.len() ==> (#[trigger] succeeded_at(statuses, i)
                <==> reports_success(statuses[i])),
{
    assert forall|i: int| 0 <= i < signatures.len() && i < statuses.len() implies (succeeded_at(statuses, i)
        <==> reports_success(statuses[i])) by {
        match statuses[i] {
            Some(status) => {
                match status.status {
                    Ok(_) => {},
                    Err(_) => {},
                }
            },
            None => {},
        }
    }
    if exists|i: int| 0 <= i < signatures.len() && i < statuses.len() && #[trigger] reports_success(statuses[i]) {
        let i = choose|i: int| 0 <= i < signatures.len() && i < statuses.len() && #[trigger] reports_success(statuses[i]);
        assert(succeeded_at(statuses, i));
    }
}

/// The commitment levels, read directly: at `Processed` every status counts;
/// at `Finalized` a status counts exactly when its block is rooted (no
/// confirmation count); at `Confirmed` a status with a confirmation level
/// counts exactly when that level is `Confirmed` or `Finalized`, and one
/// without counts when it is rooted or has more than one confirmation.
/// Whether the transaction itself succeeded plays no part.
pub proof fn lemma_commitment_levels(status: SignatureStatus)
    ensures
        satisfies_commitment(status, CommitmentTier::Processed),
        satisfies_commitment(status, CommitmentTier::Finalized) <==> status.confirmations is None,
        status.confirmation_status == Some(ConfirmationStatus::Finalized) ==> satisfies_commitment(
            status,
            CommitmentTier::Confirmed,
        ),
        status.confirmation_status == Some(ConfirmationStatus::Confirmed) ==> satisfies_commitment(
            status,
            CommitmentTier::Confirmed,
        ),
        status.confirmation_status == Some(ConfirmationStatus::Processed) ==> !satisfies_commitment(
            status,
            CommitmentTier::Confirmed,
        ),
        status.confirmation_status is None ==> (satisfies_commitment(status, CommitmentTier::Confirmed) <==> (
        status.confirmations is None || status.confirmations.unwrap() > 1)),
{
}

/// The filter keeps a report exactly when there is one and its status has
/// reached the commitment, and then keeps it unchanged; otherwise it leaves
/// `None`. A failed status below the commitment is hidden like any other.
pub proof fn lemma_committed_keeps_exactly_the_committed(report: Option<SignatureStatus>, tier: CommitmentTier)
    ensures
        report is None ==> committed(report, tier) is None,
        report matches Some(status) ==> (committed(report, tier) is Some <==> satisfies_commitment(status, tier)),
        committed(report, tier) is Some ==> committed(report, tier) == report,
        report matches Some(status) ==> (committed(report, CommitmentTier::Finalized) is Some
            <==> status.confirmations is None),
{
}

/// Every signature among the first `n` whose report says it failed is
/// collected as failed.
pub proof fn lemma_failed_among_complete(
    signatures: Seq<SignatureBytes>,
    statuses: Seq<Option<SignatureStatus>>,
    n: int,
    i: int,
)
    requires
        0 <= i < n,
        failed_at(statuses, i),
    ensures
        failed_among(signatures, statuses, n).contains(signatures[i]),
    decreases n,
{
    let rest = failed_among(signatures, statuses, n - 1);
    if i < n - 1 {
        lemma_failed_among_complete(signatures, statuses, n - 1, i);
        let k = choose|k: int| 0 <= k < rest.len() && rest[k] == signatures[i];
        if failed_at(statuses, n - 1) {
            assert(rest.push(signatures[n - 1])[k] == signatures[i]);
        }
    } else {
        assert(rest.push(signatures[n - 1])[rest.len() as int] == signatures[i]);
    }
}

/// Whether `report` is a failure, read directly from the report.
pub open spec fn reports_failure(report: Option<SignatureStatus>) -> bool {
    match report {
        Some(status) => match status.status {
            Ok(_) => false,
            Err(_) => true,
        },
        None => false,
    }
}

/// A report is a failure exactly when it is present and its status an error.
pub proof fn lemma_failed_at_reads_the_report(statuses: Seq<Option<SignatureStatus>>, i: int)
    ensures
        failed_at(statuses, i) <==> reports_failure(statuses[i]),
{
    match statuses[i] {
        Some(status) => {
            match status.status {
                Ok(_) => {},
                Err(_) => {},
            }
        },
        None => {},
    }
}

} // verus!
