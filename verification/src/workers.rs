//! Decision steps of the node's periodic workers: what to scan next, when to alert,
//! when to retry and when to give up. The workers themselves wait, query and send.
use vstd::prelude::*;
use crate::types::{Address, H256, bytes_eq, is_zero_hash, reversed};
use crate::text::{decimal, push_decimal};

verus! {

// ---------------------------------------------------------------------------
// Prover statistics

/// Reports prover job statistics every `reporting_interval_ms`.
#[derive(Debug, Clone, Copy)]
pub struct ProverStatsReporter {
    pub reporting_interval_ms: u64,
}

impl ProverStatsReporter {
    pub fn new(reporting_interval_ms: u64) -> (r: Self)
        ensures
            r.reporting_interval_ms == reporting_interval_ms,
    {
        ProverStatsReporter { reporting_interval_ms }
    }

    /// How long to wait between reports.
    pub fn polling_interval_ms(&self) -> (r: u64)
        ensures
            r == self.reporting_interval_ms,
    {
        self.reporting_interval_ms
    }
}

// ---------------------------------------------------------------------------
// Assignments

/// How many mini-blocks one scan for assignment events covers at most.
pub const SCAN_WINDOW: u32 = 1024;

/// A penalty to send for an assignment that was not proven in time.
#[derive(Debug, Clone, Copy)]
pub struct PunishedAssignment {
    pub id: u64,
    pub address: Address,
    pub l1_batch_number: u32,
    pub event_index: u64,
}

/// Watches assignment and penalty events, times assignments out and sends penalties.
#[derive(Debug)]
pub struct AssignmentsManager<P, C> {
    pub pool: P,
    pub processing_timeout_secs: u64,
    pub retry_interval_ms: u64,
    pub l2_sender: C,
    pub event_signatures: Vec<H256>,
    /// The mini-block the next scan starts at (0: not known yet).
    pub from_block: u32,
}

impl<P, C> AssignmentsManager<P, C> {
    /// A manager watching the events with the two signatures, from a start block to be
    /// read from storage.
    pub fn new(
        processing_timeout_secs: u64,
        retry_interval_ms: u64,
        pool: P,
        l2_sender: C,
        assignment_signature: H256,
        penalize_signature: H256,
    ) -> (r: Self)
        ensures
            r.processing_timeout_secs == processing_timeout_secs,
            r.retry_interval_ms == retry_interval_ms,
            r.pool == pool,
            r.l2_sender == l2_sender,
            r.event_signatures@ == seq![assignment_signature, penalize_signature],
            r.from_block == 0,
    {
        let mut event_signatures = Vec::new();
        event_signatures.push(assignment_signature);
        event_signatures.push(penalize_signature);
        AssignmentsManager {
            pool,
            processing_timeout_secs,
            retry_interval_ms,
            l2_sender,
            event_signatures,
            from_block: 0,
        }
    }

    /// How long to wait between rounds.
    pub fn polling_interval_ms(&self) -> (r: u64)
        ensures
            r == self.retry_interval_ms,
    {
        self.retry_interval_ms
    }

    /// Whether the start of the next scan must first be read from storage.
    pub fn needs_start_block(&self) -> (r: bool)
        ensures
            r == (self.from_block == 0),
    {
        self.from_block == 0
    }

    /// The range of mini-blocks to scan next, given (when the start is not known yet)
    /// the largest mini-block recorded in storage, `None` when there is none, and the
    /// last sealed mini-block. The scan covers at most `SCAN_WINDOW` blocks and does not
    /// pass the sealed block; the next scan starts where this one ends.
    pub fn next_scan_range(&mut self, stored_start: Option<u32>, sealed: u32) -> (r: (u32, u32))
        requires
            (if old(self).from_block == 0 {
                match stored_start { Some(s) => s, None => 0 }
            } else {
                old(self).from_block
            }) + SCAN_WINDOW <= u32::MAX,
        ensures
            ({
                let from = if old(self).from_block == 0 {
                    match stored_start { Some(s) => s, None => 0u32 }
                } else {
                    old(self).from_block
                };
                let to = if from + SCAN_WINDOW > sealed { sealed } else { (from + SCAN_WINDOW) as u32 };
                &&& r == (from, to)
                &&& final(self).from_block == to
                &&& final(self).processing_timeout_secs == old(self).processing_timeout_secs
                &&& final(self).retry_interval_ms == old(self).retry_interval_ms
                &&& final(self).event_signatures == old(self).event_signatures
            }),
    {
        if self.from_block == 0 {
            self.from_block = match stored_start {
                Some(s) => s,
                None => 0,
            };
        }
        let from = self.from_block;
        let mut to_block = from + SCAN_WINDOW;
        if to_block > sealed {
            to_block = sealed;
        }
        self.from_block = to_block;
        (from, to_block)
    }
}

/// A query of event logs: the mini-blocks `from_block ..= to_block`, the emitting
/// contracts, and for each listed topic position the signatures accepted there.
#[derive(Clone, Debug, PartialEq, Eq)]
pub struct LogQuery {
    pub from_block: u32,
    pub to_block: u32,
    pub addresses: Vec<Address>,
    pub topics: Vec<(u8, Vec<H256>)>,
}

fn copy_hashes(v: &Vec<H256>) -> (r: Vec<H256>)
    ensures
        r@ == v@,
{
    let n = v.len();
    let mut out: Vec<H256> = Vec::new();
    let mut k: usize = 0;
    while k < n
        invariant
            n == v@.len(),
            k <= n,
            out@ == v@.take(k as int),
        decreases n - k,
    {
        out.push(v[k]);
        assert(v@.take(k as int + 1) =~= v@.take(k as int).push(v@[k as int]));
        k = k + 1;
    }
    assert(v@.take(n as int) =~= v@);
    out
}

impl<P, C> AssignmentsManager<P, C> {
    /// The log query of a scan over `range`: the logs of the deposit contract and of
    /// the assignment contract whose first topic (position 1) is one of the watched
    /// event signatures.
    pub fn scan_query(&self, range: (u32, u32), deposit_address: Address, assignment_address: Address) -> (r: LogQuery)
        ensures
            r.from_block == range.0,
            r.to_block == range.1,
            r.addresses@ == seq![deposit_address, assignment_address],
            r.topics@.len() == 1,
            r.topics@[0].0 == 1,
            r.topics@[0].1@ == self.event_signatures@,
    {
        let mut addresses: Vec<Address> = Vec::new();
        addresses.push(deposit_address);
        addresses.push(assignment_address);
        let mut topics: Vec<(u8, Vec<H256>)> = Vec::new();
        topics.push((1u8, copy_hashes(&self.event_signatures)));
        LogQuery { from_block: range.0, to_block: range.1, addresses, topics }
    }
}

/// The hash of a penalty transaction to record: present and not the zero hash.
pub fn penalty_tx_hash(transaction_hash: Option<H256>) -> (r: Option<H256>)
    ensures
        r == match transaction_hash {
            Some(h) => if (forall|j: int| 0 <= j < 32 ==> h@[j] == 0u8) { None } else { Some(h) },
            None => None,
        },
{
    match transaction_hash {
        Some(h) => if is_zero_hash(&h) { None } else { Some(h) },
        None => None,
    }
}

/// The penalties in the order they are sent: the reverse of the order they were listed in.
pub fn punishment_order(list: Vec<PunishedAssignment>) -> (r: Vec<PunishedAssignment>)
    ensures
        r@ == list@.reverse(),
{
    reversed(list)
}

/// A call of `penalize(l1_batch_number, address, event_index)` on the deposit contract
/// at `to`.
#[derive(Clone, Copy, Debug, PartialEq, Eq)]
pub struct PenaltyCall {
    pub to: Address,
    pub l1_batch_number: u32,
    pub address: Address,
    pub event_index: u64,
}

/// The penalty calls for the listed assignments, in the order they are sent (the
/// reverse of the listing), each to the deposit contract at `deposit_address`; every
/// call is sent, whatever became of the earlier ones.
pub fn penalty_calls(list: Vec<PunishedAssignment>, deposit_address: Address) -> (r: Vec<PenaltyCall>)
    ensures
        r@.len() == list@.len(),
        forall|i: int| 0 <= i < r@.len() ==> #[trigger] r@[i] == (PenaltyCall {
            to: deposit_address,
            l1_batch_number: list@[list@.len() - 1 - i].l1_batch_number,
            address: list@[list@.len() - 1 - i].address,
            event_index: list@[list@.len() - 1 - i].event_index,
        }),
{
    let ordered = punishment_order(list);
    let n = ordered.len();
    let mut out: Vec<PenaltyCall> = Vec::new();
    let mut k: usize = 0;
    while k < n
        invariant
            n == ordered@.len(),
            ordered@ == list@.reverse(),
            k <= n,
            out@.len() == k,
            forall|i: int| 0 <= i < k ==> #[trigger] out@[i] == (PenaltyCall {
                to: deposit_address,
                l1_batch_number: ordered@[i].l1_batch_number,
                address: ordered@[i].address,
                event_index: ordered@[i].event_index,
            }),
        decreases n - k,
    {
        let a = ordered[k];
        out.push(PenaltyCall {
            to: deposit_address,
            l1_batch_number: a.l1_batch_number,
            address: a.address,
            event_index: a.event_index,
        });
        k = k + 1;
    }
    out
}

// ---------------------------------------------------------------------------
// Transaction monitor

/// Alerts when no transaction came for longer than the processing timeout.
#[derive(Debug)]
pub struct MonitorTransactions<P> {
    pub pool: P,
    pub processing_timeout_secs: u64,
    pub retry_interval_ms: u64,
}

impl<P> MonitorTransactions<P> {
    pub fn new(pool: P, processing_timeout_secs: u64, retry_interval_ms: u64) -> (r: Self)
        ensures
            r.pool == pool,
            r.processing_timeout_secs == processing_timeout_secs,
            r.retry_interval_ms == retry_interval_ms,
    {
        MonitorTransactions { pool, processing_timeout_secs, retry_interval_ms }
    }

    /// How long to wait between checks.
    pub fn polling_interval_ms(&self) -> (r: u64)
        ensures
            r == self.retry_interval_ms,
    {
        self.retry_interval_ms
    }

    /// Whether `secs_since_last_transaction` exceeds the timeout (an alert is due).
    pub fn is_stalled(&self, secs_since_last_transaction: i64) -> (r: bool)
        requires
            self.processing_timeout_secs <= i64::MAX,
        ensures
            r == (secs_since_last_transaction > self.processing_timeout_secs),
    {
        secs_since_last_transaction > self.processing_timeout_secs as i64
    }
}

// ---------------------------------------------------------------------------
// Consistency checker

/// What the consistency checker does next.
#[derive(Clone, Copy, Debug, PartialEq, Eq, Structural)]
pub enum CheckerAction {
    /// Wait and look again.
    Sleep,
    /// Compare the batch's commitment with L1.
    Check(u32),
}

/// What came of a comparison.
#[derive(Clone, Copy, Debug, PartialEq, Eq, Structural)]
pub enum CheckerOutcome {
    /// The batch is consistent; the checker moved to the next one.
    Advanced,
    /// The comparison failed; wait and retry the same batch.
    Retry,
}

/// Checks, batch after batch, that the commitments stored locally match L1.
#[derive(Debug, Clone, Copy)]
pub struct ConsistencyChecker {
    pub max_batches_to_recheck: u32,
    pub batch_number: u32,
}

impl ConsistencyChecker {
    /// A checker that starts `max_batches_to_recheck` batches before the last batch
    /// committed on L1, and not before batch 1.
    pub fn new(last_committed_batch: u32, max_batches_to_recheck: u32) -> (r: Self)
        ensures
            r.max_batches_to_recheck == max_batches_to_recheck,
            r.batch_number == (if last_committed_batch > max_batches_to_recheck
                && last_committed_batch - max_batches_to_recheck > 1 {
                (last_committed_batch - max_batches_to_recheck) as u32
            } else {
                1u32
            }),
    {
        let start = last_committed_batch.saturating_sub(max_batches_to_recheck);
        let batch_number = if start > 1 { start } else { 1 };
        ConsistencyChecker { max_batches_to_recheck, batch_number }
    }

    /// The next step: a batch is compared only once it has metadata and is committed.
    pub fn next_action(&self, batch_has_metadata: bool, last_committed_batch: u32) -> (r: CheckerAction)
        ensures
            r == if !batch_has_metadata || last_committed_batch < self.batch_number {
                CheckerAction::Sleep
            } else {
                CheckerAction::Check(self.batch_number)
            },
    {
        if !batch_has_metadata || last_committed_batch < self.batch_number {
            CheckerAction::Sleep
        } else {
            CheckerAction::Check(self.batch_number)
        }
    }

    /// Takes in a comparison: `Some(true)` when the batch is consistent, `None` when it
    /// could not be made. An inconsistent batch (`Some(false)`) stops the node before
    /// this step.
    pub fn on_commitment_checked(&mut self, result: Option<bool>) -> (r: CheckerOutcome)
        requires
            old(self).batch_number < u32::MAX,
            result != Some(false),
        ensures
            final(self).max_batches_to_recheck == old(self).max_batches_to_recheck,
            result == Some(true) ==> r == CheckerOutcome::Advanced && final(self).batch_number == old(self).batch_number + 1,
            result is None ==> r == CheckerOutcome::Retry && final(self).batch_number == old(self).batch_number,
    {
        match result {
            Some(_) => {
                self.batch_number = self.batch_number + 1;
                CheckerOutcome::Advanced
            },
            None => CheckerOutcome::Retry,
        }
    }
}

/// Why a commit transaction fetched from L1 cannot vouch for a batch.
#[derive(Clone, Copy, Debug, PartialEq, Eq, Structural)]
pub enum CommitTxError {
    /// The transaction failed on L1.
    Failed,
    /// The transaction was not sent to the rollup contract.
    WrongAddress,
}

/// A commit transaction is sound: its receipt status is `Some(1)` and it was sent to the
/// rollup contract.
pub open spec fn commit_tx_sound(status: Option<u64>, to: Option<Address>, contract_addr: Address) -> bool {
    status == Some(1u64) && (to matches Some(a) && a@ == contract_addr@)
}

/// What is wrong with a commit transaction, given its receipt status and recipient:
/// first a failed status, then a wrong recipient; `None` when it is sound.
pub fn commit_tx_problem(status: Option<u64>, to: Option<Address>, contract_addr: &Address) -> (r: Option<CommitTxError>)
    ensures
        status != Some(1u64) ==> r == Some(CommitTxError::Failed),
        status == Some(1u64) && !commit_tx_sound(status, to, *contract_addr) ==> r == Some(CommitTxError::WrongAddress),
        commit_tx_sound(status, to, *contract_addr) ==> r is None,
{
    match status {
        Some(st) => {
            if st != 1 {
                return Some(CommitTxError::Failed);
            }
        },
        None => {
            return Some(CommitTxError::Failed);
        },
    }
    match to {
        Some(a) => {
            if !bytes_eq(&a, contract_addr) {
                return Some(CommitTxError::WrongAddress);
            }
        },
        None => {
            return Some(CommitTxError::WrongAddress);
        },
    }
    None
}

/// Whether two byte strings are equal.
pub fn byte_vecs_eq(a: &Vec<u8>, b: &Vec<u8>) -> (r: bool)
    ensures
        r == (a@ == b@),
{
    if a.len() != b.len() {
        return false;
    }
    let n = a.len();
    let mut i: usize = 0;
    while i < n
        invariant
            n == a@.len(),
            n == b@.len(),
            i <= n,
            forall|j: int| 0 <= j < i ==> a@[j] == b@[j],
        decreases n - i,
    {
        if a[i] != b[i] {
            return false;
        }
        i = i + 1;
    }
    assert(a@ =~= b@);
    true
}

/// Checks batch `batch_number` against its commit transaction on L1: the transaction's
/// receipt status (`Some(1)` for success), its recipient, and the commitments it
/// publishes, from batch `first_batch_number` on, each as its ABI encoding. The
/// transaction must be sound and publish a commitment for the batch; the batch is then
/// consistent when that commitment equals the local one.
pub fn check_commit_tx(
    status: Option<u64>,
    to: Option<Address>,
    contract_addr: &Address,
    batch_number: u32,
    first_batch_number: usize,
    commitments: &Vec<Vec<u8>>,
    local_commitment: &Vec<u8>,
) -> (r: bool)
    requires
        commit_tx_sound(status, to, *contract_addr),
        first_batch_number <= batch_number,
        batch_number - first_batch_number < commitments@.len(),
    ensures
        r == (commitments@[batch_number - first_batch_number]@ == local_commitment@),
{
    let batch = batch_number as usize;
    byte_vecs_eq(&commitments[batch - first_batch_number], local_commitment)
}

// ---------------------------------------------------------------------------
// Prover and circuit synthesizer

/// The name of the blob that keeps an assembly for debugging.
pub open spec fn spec_assembly_debug_blob_url(job_id: nat, circuit_id: nat) -> Seq<char> {
    "assembly_debugging_"@ + decimal(job_id) + "_"@ + decimal(circuit_id) + ".bin"@
}

/// The name of the blob that keeps the assembly of `job_id` for debugging.
pub fn assembly_debug_blob_url(job_id: usize, circuit_id: u8) -> (r: String)
    ensures
        r@ == spec_assembly_debug_blob_url(job_id as nat, circuit_id as nat),
{
    let mut r = String::new();
    r.append("assembly_debugging_");
    push_decimal(&mut r, job_id as u64);
    r.append("_");
    push_decimal(&mut r, circuit_id as u64);
    r.append(".bin");
    r
}

/// Kinds of I/O failure when sending an assembly.
#[derive(Clone, Copy, Debug, PartialEq, Eq, Structural)]
pub enum IoErrorKind {
    TimedOut,
    ConnectionRefused,
    Other,
}

/// Whether a failed send may be retried: on a timeout or a refused connection.
pub fn can_be_retried(err: IoErrorKind) -> (r: bool)
    ensures
        r == (err == IoErrorKind::TimedOut || err == IoErrorKind::ConnectionRefused),
{
    match err {
        IoErrorKind::TimedOut => true,
        IoErrorKind::ConnectionRefused => true,
        IoErrorKind::Other => false,
    }
}

/// Copy attempts when sending an assembly.
pub const SEND_ATTEMPTS: u32 = 10;

/// What to do after a failed copy.
#[derive(Clone, Copy, Debug, PartialEq, Eq, Structural)]
pub enum SendStep {
    /// Pause and copy again.
    Retry,
    /// Give up with this error.
    GiveUp,
}

/// The attempts left when sending an assembly.
#[derive(Clone, Copy, Debug, PartialEq, Eq, Structural)]
pub struct SendRetry {
    pub attempts_left: u32,
}

impl SendRetry {
    pub fn new() -> (r: Self)
        ensures
            r.attempts_left == SEND_ATTEMPTS,
    {
        SendRetry { attempts_left: SEND_ATTEMPTS }
    }

    /// Takes in a failed copy: a retryable failure uses up an attempt and is retried while
    /// attempts are left; any other failure gives up at once.
    pub fn on_copy_error(&mut self, err: IoErrorKind) -> (r: SendStep)
        requires
            old(self).attempts_left > 0,
        ensures
            can_be_retried_spec(err) ==> final(self).attempts_left == old(self).attempts_left - 1
                && r == (if final(self).attempts_left > 0 { SendStep::Retry } else { SendStep::GiveUp }),
            !can_be_retried_spec(err) ==> *final(self) == *old(self) && r == SendStep::GiveUp,
    {
        if can_be_retried(err) {
            self.attempts_left = self.attempts_left - 1;
            if self.attempts_left > 0 { SendStep::Retry } else { SendStep::GiveUp }
        } else {
            SendStep::GiveUp
        }
    }
}

/// Whether a failure kind may be retried.
pub open spec fn can_be_retried_spec(err: IoErrorKind) -> bool {
    err == IoErrorKind::TimedOut || err == IoErrorKind::ConnectionRefused
}

/// Size of a sent assembly in whole gibibytes.
pub fn blob_size_in_gb(len: u64) -> (r: u64)
    ensures
        r == len / 1073741824u64,
{
    len / 1073741824u64
}

/// The socket address of a prover instance.
#[derive(Clone, Debug, PartialEq, Eq)]
pub struct ProverAddress {
    pub host: String,
    pub port: u16,
}

/// What to record after trying to send an assembly to a prover.
#[derive(Clone, Debug, PartialEq, Eq)]
pub enum AssemblySendAction {
    /// The prover took it: set the job's status, and report the size in whole GiB.
    MarkSent { job_id: u32, job_status: String, size_in_gb: u64 },
    /// The prover could not be reached: mark the prover instance at `address` in
    /// `region` and `zone` dead with `free_slots` free slots, and record `job_error` for
    /// the job, counting an attempt against `max_attempts`.
    MarkProverDead {
        address: ProverAddress,
        free_slots: u64,
        region: String,
        zone: String,
        job_id: u32,
        job_error: String,
        max_attempts: u32,
    },
}

/// The status of a job whose assembly reached a prover.
pub open spec fn in_gpu_proof_status() -> Seq<char> {
    "in_gpu_proof"@
}

/// The error recorded for a job whose prover could not be reached.
pub open spec fn unreachable_prover_error() -> Seq<char> {
    "prover instance unreachable"@
}

/// `r` records a send of job `job_id`'s assembly to the prover at `address` in `region`
/// and `zone` that delivered `sent_len` bytes (`None`: it failed); failed jobs may be
/// attempted `max_attempts` times.
pub open spec fn records_send(
    r: AssemblySendAction,
    job_id: u32,
    address: ProverAddress,
    region: Seq<char>,
    zone: Seq<char>,
    sent_len: Option<u64>,
    max_attempts: u32,
) -> bool {
    match sent_len {
        Some(len) => r matches AssemblySendAction::MarkSent { job_id: j, job_status, size_in_gb }
            && j == job_id && job_status@ == in_gpu_proof_status() && size_in_gb == len / 1073741824u64,
        None => r matches AssemblySendAction::MarkProverDead { address: a, free_slots, region: rg, zone: z, job_id: j, job_error, max_attempts: m }
            && a == address && free_slots == 0 && rg@ == region && z@ == zone && j == job_id
            && job_error@ == unreachable_prover_error() && m == max_attempts,
    }
}

/// What to record for a send of job `job_id`'s assembly to the prover at `address`.
pub fn assembly_send_action(
    job_id: u32,
    address: ProverAddress,
    region: &str,
    zone: &str,
    sent_len: Option<u64>,
    max_attempts: u32,
) -> (r: AssemblySendAction)
    ensures
        records_send(r, job_id, address, region@, zone@, sent_len, max_attempts),
{
    match sent_len {
        Some(len) => AssemblySendAction::MarkSent {
            job_id,
            job_status: "in_gpu_proof".to_owned(),
            size_in_gb: blob_size_in_gb(len),
        },
        None => AssemblySendAction::MarkProverDead {
            address,
            free_slots: 0,
            region: region.to_owned(),
            zone: zone.to_owned(),
            job_id,
            job_error: "prover instance unreachable".to_owned(),
            max_attempts,
        },
    }
}

/// The request that locks a free prover instance of a group in a region and zone,
/// taking back instances locked for longer than `queue_timeout_secs`.
#[derive(Clone, Debug, PartialEq, Eq)]
pub struct ProverLockRequest {
    pub queue_timeout_secs: u64,
    pub group_id: u8,
    pub region: String,
    pub zone: String,
}

/// What the synthesizer does after trying to lock a prover.
#[derive(Clone, Debug, PartialEq, Eq)]
pub enum DeliveryStep {
    /// Send the assembly to the locked prover.
    Send(ProverAddress),
    /// No prover is free: pause, then look again.
    Sleep,
}

/// Handing the assembly of one job to a prover of the synthesizer's group, region and
/// zone, within a wait limit: the failed sends so far.
#[derive(Clone, Debug, PartialEq, Eq)]
pub struct AssemblyDelivery {
    pub job_id: u32,
    pub group_id: u8,
    pub region: String,
    pub zone: String,
    pub queue_timeout_secs: u64,
    pub wait_timeout_ms: u64,
    pub failed_sends: u32,
}

impl AssemblyDelivery {
    /// No send tried yet.
    pub fn new(
        job_id: u32,
        group_id: u8,
        region: String,
        zone: String,
        queue_timeout_secs: u64,
        wait_timeout_ms: u64,
    ) -> (r: Self)
        ensures
            r == (AssemblyDelivery { job_id, group_id, region, zone, queue_timeout_secs, wait_timeout_ms, failed_sends: 0 }),
    {
        AssemblyDelivery { job_id, group_id, region, zone, queue_timeout_secs, wait_timeout_ms, failed_sends: 0 }
    }

    /// `elapsed_ms` after the wait began: the request that locks a prover of this
    /// group, region and zone, or `None` when the wait is over and the assembly is
    /// given up.
    pub fn lock_request(&self, elapsed_ms: u64) -> (r: Option<ProverLockRequest>)
        ensures
            elapsed_ms >= self.wait_timeout_ms ==> r is None,
            elapsed_ms < self.wait_timeout_ms ==> (r matches Some(q)
                && q.queue_timeout_secs == self.queue_timeout_secs && q.group_id == self.group_id
                && q.region@ == self.region@ && q.zone@ == self.zone@),
    {
        if elapsed_ms >= self.wait_timeout_ms {
            None
        } else {
            Some(ProverLockRequest {
                queue_timeout_secs: self.queue_timeout_secs,
                group_id: self.group_id,
                region: self.region.clone(),
                zone: self.zone.clone(),
            })
        }
    }

    /// The step after a lock request: send to the locked prover, if any, else pause.
    pub fn on_lock(&self, locked: Option<ProverAddress>) -> (r: DeliveryStep)
        ensures
            r == match locked {
                Some(a) => DeliveryStep::Send(a),
                None => DeliveryStep::Sleep,
            },
    {
        match locked {
            Some(a) => DeliveryStep::Send(a),
            None => DeliveryStep::Sleep,
        }
    }

    /// Takes in a send to the prover at `address` that delivered `sent_len` bytes
    /// (`None`: it failed): whether the assembly is delivered, and what to record for
    /// the attempt. A failed send is counted, and another prover is tried.
    pub fn on_sent(&mut self, address: ProverAddress, sent_len: Option<u64>, max_attempts: u32) -> (r: (bool, AssemblySendAction))
        requires
            old(self).failed_sends < u32::MAX,
        ensures
            r.0 == sent_len is Some,
            records_send(r.1, old(self).job_id, address, old(self).region@, old(self).zone@, sent_len, max_attempts),
            final(self).failed_sends == (if sent_len is Some { old(self).failed_sends } else { (old(self).failed_sends + 1) as u32 }),
            final(self).job_id == old(self).job_id,
            final(self).group_id == old(self).group_id,
            final(self).region == old(self).region,
            final(self).zone == old(self).zone,
            final(self).queue_timeout_secs == old(self).queue_timeout_secs,
            final(self).wait_timeout_ms == old(self).wait_timeout_ms,
    {
        let record = assembly_send_action(self.job_id, address, self.region.as_str(), self.zone.as_str(), sent_len, max_attempts);
        let delivered = sent_len.is_some();
        if !delivered {
            self.failed_sends = self.failed_sends + 1;
        }
        (delivered, record)
    }
}

/// A report of the prover about one of its jobs, as far as the reporter reads it.
#[derive(Clone, Debug, PartialEq, Eq)]
pub enum JobReport {
    /// The job failed with this error.
    Failure { job_id: usize, error: String },
    ProofGenerated { job_id: usize },
    Synthesized { job_id: usize },
    AssemblyFinalized { job_id: usize },
    SetupLoaded { job_id: usize },
    AssemblyEncoded { job_id: usize },
    AssemblyDecoded { job_id: usize },
    /// Decoding the assembly of the job's circuit failed; the assembly is kept.
    FailureWithDebugging { job_id: usize, circuit_id: u8, assembly: Vec<u8> },
    AssemblyTransferred { job_id: usize },
    ProverWaitedIdle,
    SetupLoaderWaitedIdle,
    SchedulerWaitedIdle,
}

/// A stage of a job whose duration is recorded, each under its own metric.
#[derive(Clone, Copy, Debug, PartialEq, Eq, Structural)]
pub enum JobStage {
    Synthesis,
    AssemblyFinalization,
    /// Loading the setup; also counts a setup cache miss.
    SetupLoading,
    AssemblyEncoding,
    AssemblyDecoding,
    AssemblyTransfer,
}

/// Who waited idle, each recorded under its own metric.
#[derive(Clone, Copy, Debug, PartialEq, Eq, Structural)]
pub enum IdleWaiter {
    Prover,
    SetupLoader,
    Scheduler,
}

/// Buckets of the object store.
#[derive(Clone, Copy, Debug, PartialEq, Eq, Structural)]
pub enum Bucket {
    ProverJobs,
}

/// What the reporter does with a report.
#[derive(Clone, Debug, PartialEq, Eq)]
pub enum ReportAction {
    /// Record the job's error, counting an attempt against the limit `max_attempts`.
    SaveProofError { job_id: u32, error: String, max_attempts: u32 },
    /// Store the job's proof.
    SaveProof { job_id: usize },
    /// Record the duration of a stage of the job, labelled with the job's circuit type.
    TimeJobStage { job_id: usize, stage: JobStage },
    /// Record an idle wait.
    TimeIdle { waiter: IdleWaiter },
    /// Store the failed assembly in `bucket` under `blob_url` for debugging; a failure
    /// to store it stops the reporter.
    StoreDebugAssembly { bucket: Bucket, blob_url: String, assembly: Vec<u8> },
}

/// The action for a report; failed jobs may be attempted `max_attempts` times. The job
/// id is stored as a 32-bit number.
pub fn report_action(report: JobReport, max_attempts: u32) -> (r: ReportAction)
    ensures
        match report {
            JobReport::Failure { job_id, error } => r == (ReportAction::SaveProofError {
                job_id: job_id as u32,
                error,
                max_attempts,
            }),
            JobReport::ProofGenerated { job_id } => r == ReportAction::SaveProof { job_id },
            JobReport::FailureWithDebugging { job_id, circuit_id, assembly } =>
                r matches ReportAction::StoreDebugAssembly { bucket, blob_url, assembly: stored }
                    && bucket == Bucket::ProverJobs
                    && blob_url@ == spec_assembly_debug_blob_url(job_id as nat, circuit_id as nat)
                    && stored == assembly,
            JobReport::ProverWaitedIdle => r == (ReportAction::TimeIdle { waiter: IdleWaiter::Prover }),
            JobReport::SetupLoaderWaitedIdle => r == (ReportAction::TimeIdle { waiter: IdleWaiter::SetupLoader }),
            JobReport::SchedulerWaitedIdle => r == (ReportAction::TimeIdle { waiter: IdleWaiter::Scheduler }),
            JobReport::Synthesized { job_id } => r == (ReportAction::TimeJobStage { job_id, stage: JobStage::Synthesis }),
            JobReport::AssemblyFinalized { job_id } => r == (ReportAction::TimeJobStage { job_id, stage: JobStage::AssemblyFinalization }),
            JobReport::SetupLoaded { job_id } => r == (ReportAction::TimeJobStage { job_id, stage: JobStage::SetupLoading }),
            JobReport::AssemblyEncoded { job_id } => r == (ReportAction::TimeJobStage { job_id, stage: JobStage::AssemblyEncoding }),
            JobReport::AssemblyDecoded { job_id } => r == (ReportAction::TimeJobStage { job_id, stage: JobStage::AssemblyDecoding }),
            JobReport::AssemblyTransferred { job_id } => r == (ReportAction::TimeJobStage { job_id, stage: JobStage::AssemblyTransfer }),
        },
{
    match report {
        JobReport::Failure { job_id, error } => ReportAction::SaveProofError {
            job_id: job_id as u32,
            error,
            max_attempts,
        },
        JobReport::ProofGenerated { job_id } => ReportAction::SaveProof { job_id },
        JobReport::FailureWithDebugging { job_id, circuit_id, assembly } => ReportAction::StoreDebugAssembly {
            bucket: Bucket::ProverJobs,
            blob_url: assembly_debug_blob_url(job_id, circuit_id),
            assembly,
        },
        JobReport::ProverWaitedIdle => ReportAction::TimeIdle { waiter: IdleWaiter::Prover },
        JobReport::SetupLoaderWaitedIdle => ReportAction::TimeIdle { waiter: IdleWaiter::SetupLoader },
        JobReport::SchedulerWaitedIdle => ReportAction::TimeIdle { waiter: IdleWaiter::Scheduler },
        JobReport::Synthesized { job_id } => ReportAction::TimeJobStage { job_id, stage: JobStage::Synthesis },
        JobReport::AssemblyFinalized { job_id } => ReportAction::TimeJobStage { job_id, stage: JobStage::AssemblyFinalization },
        JobReport::SetupLoaded { job_id } => ReportAction::TimeJobStage { job_id, stage: JobStage::SetupLoading },
        JobReport::AssemblyEncoded { job_id } => ReportAction::TimeJobStage { job_id, stage: JobStage::AssemblyEncoding },
        JobReport::AssemblyDecoded { job_id } => ReportAction::TimeJobStage { job_id, stage: JobStage::AssemblyDecoding },
        JobReport::AssemblyTransferred { job_id } => ReportAction::TimeJobStage { job_id, stage: JobStage::AssemblyTransfer },
    }
}

/// Why a circuit synthesizer cannot be configured.
#[derive(Clone, Copy, Debug, PartialEq, Eq, Structural)]
pub enum CircuitSynthesizerError {
    /// The prover group has no circuit list.
    InvalidGroupCircuits(u8),
    /// A circuit id of the group has no name.
    InvalidCircuitId(u8),
}

/// The circuit types a synthesizer of group `group_id` takes: every type when the group
/// is not specialized, else the names of the group's circuits, given as each circuit id
/// with its name (`None` when the id has no name). A specialized group without a
/// circuit list, or with an unnamed circuit, is an error (the first unnamed one is
/// reported).
pub fn allowed_circuit_types(
    group_id: u8,
    is_specialized: bool,
    circuits: Option<Vec<(u8, Option<String>)>>,
) -> (r: Result<Option<Vec<String>>, CircuitSynthesizerError>)
    ensures
        !is_specialized ==> r == Ok::<Option<Vec<String>>, CircuitSynthesizerError>(None),
        is_specialized && circuits is None ==> r == Err::<Option<Vec<String>>, CircuitSynthesizerError>(
            CircuitSynthesizerError::InvalidGroupCircuits(group_id)),
        is_specialized && circuits is Some ==> ({
            let c = circuits->0@;
            match r {
                Ok(Some(names)) => names@.len() == c.len()
                    && (forall|i: int| 0 <= i < c.len() ==> c[i].1 == Some(#[trigger] names@[i])),
                Err(CircuitSynthesizerError::InvalidCircuitId(id)) => exists|i: int| 0 <= i < c.len()
                    && (#[trigger] c[i]).1 is None && c[i].0 == id
                    && forall|j: int| 0 <= j < i ==> (#[trigger] c[j]).1 is Some,
                _ => false,
            }
        }),
{
    if !is_specialized {
        return Ok(None);
    }
    match circuits {
        None => Err(CircuitSynthesizerError::InvalidGroupCircuits(group_id)),
        Some(list) => {
            let ghost c = list@;
            let n = list.len();
            let mut rev = reversed(list);
            let mut names: Vec<String> = Vec::new();
            let mut i: usize = 0;
            while rev.len() > 0
                invariant
                    is_specialized,
                    circuits matches Some(l) && l@ == c,
                    rev@.len() + i == n,
                    n == c.len(),
                    forall|t: int| 0 <= t < rev@.len() ==> #[trigger] rev@[t] == c[n - 1 - t],
                    names@.len() == i,
                    forall|t: int| 0 <= t < i ==> c[t].1 == Some(#[trigger] names@[t]),
                decreases rev@.len(),
            {
                let ghost before = rev@;
                let (id, name) = rev.pop().unwrap();
                proof {
                    assert((id, name) == c[i as int]);
                    assert forall|t: int| 0 <= t < rev@.len() implies #[trigger] rev@[t] == c[n - 1 - t] by {
                        assert(rev@[t] == before[t]);
                    }
                }
                match name {
                    Some(nm) => {
                        names.push(nm);
                    },
                    None => {
                        assert(c[i as int].1 is None && c[i as int].0 == id);
                        assert forall|j: int| 0 <= j < i implies (#[trigger] c[j]).1 is Some by {
                            assert(c[j].1 == Some(names@[j]));
                        }
                        return Err(CircuitSynthesizerError::InvalidCircuitId(id));
                    },
                }
                i = i + 1;
            }
            Ok(Some(names))
        },
    }
}

// ---------------------------------------------------------------------------
// Small checks of other components

/// Why the circuit breaker stops the node.
#[derive(Clone, Copy, Debug, PartialEq, Eq, Structural)]
pub enum CircuitBreakerError {
    FailedL1Transaction,
}

/// The failed-L1-transaction check: any failed transaction trips the breaker.
pub fn failed_l1_transactions_check(failed_count: usize) -> (r: Result<(), CircuitBreakerError>)
    ensures
        r is Ok <==> failed_count == 0,
        r is Err ==> r == Err::<(), CircuitBreakerError>(CircuitBreakerError::FailedL1Transaction),
{
    if failed_count > 0 {
        return Err(CircuitBreakerError::FailedL1Transaction);
    }
    Ok(())
}

/// What a tracer tells the VM after a cycle.
#[derive(Clone, Debug, PartialEq, Eq)]
pub enum TracerExecutionStatus {
    Continue,
    /// Abort execution with the reason.
    Abort(String),
}

/// The reason a run is aborted once the storage invocations reach their limit.
pub open spec fn invocations_limit_reason() -> Seq<char> {
    "Storage invocations limit reached"@
}

/// After a cycle: abort once the missed storage invocations reach the limit.
pub fn storage_invocations_status(current: usize, limit: usize) -> (r: TracerExecutionStatus)
    ensures
        current >= limit ==> (r matches TracerExecutionStatus::Abort(s) && s@ == invocations_limit_reason()),
        current < limit ==> r == TracerExecutionStatus::Continue,
{
    if current >= limit {
        return TracerExecutionStatus::Abort("Storage invocations limit reached".to_owned());
    }
    TracerExecutionStatus::Continue
}

/// Numeric identifier of the L2 network.
#[derive(Clone, Copy, Debug, PartialEq, Eq, Structural)]
pub struct L2ChainId(pub u64);

/// The `net` namespace of the web3 API.
#[derive(Clone, Copy, Debug)]
pub struct NetNamespace {
    pub network_id: L2ChainId,
}

impl NetNamespace {
    pub fn new(network_id: L2ChainId) -> (r: Self)
        ensures
            r.network_id == network_id,
    {
        NetNamespace { network_id }
    }

    /// The network version: the chain id in decimal.
    pub fn version_impl(&self) -> (r: String)
        ensures
            r@ == decimal(self.network_id.0 as nat),
    {
        let mut r = String::new();
        push_decimal(&mut r, self.network_id.0);
        r
    }

    /// The node has no peers.
    pub fn peer_count_impl(&self) -> (r: u64)
        ensures
            r == 0,
    {
        0
    }

    /// The node does not listen for peers.
    pub fn is_listening_impl(&self) -> (r: bool)
        ensures
            !r,
    {
        false
    }
}

// ---------------------------------------------------------------------------
// Node list

/// A node registered in the deposit contract.
#[derive(Debug)]
pub struct NodeInfo<T> {
    pub node_address: Address,
    pub info: T,
}

/// Whether `a` is among `live`.
pub open spec fn is_live(live: Seq<Address>, a: Address) -> bool {
    exists|i: int| 0 <= i < live.len() && (#[trigger] live[i])@ == a@
}

/// The registered nodes, in order, that are among the live ones.
pub open spec fn live_nodes<T>(list: Seq<NodeInfo<T>>, live: Seq<Address>) -> Seq<NodeInfo<T>>
    decreases list.len(),
{
    if list.len() == 0 {
        seq![]
    } else {
        let rest = live_nodes(list.drop_last(), live);
        if is_live(live, list.last().node_address) {
            rest.push(list.last())
        } else {
            rest
        }
    }
}

fn address_in(live: &Vec<Address>, a: &Address) -> (r: bool)
    ensures
        r == is_live(live@, *a),
{
    let n = live.len();
    let mut k: usize = 0;
    while k < n
        invariant
            n == live@.len(),
            k <= n,
            forall|i: int| 0 <= i < k ==> (#[trigger] live@[i])@ != a@,
        decreases n - k,
    {
        if bytes_eq(&live[k], a) {
            return true;
        }
        k = k + 1;
    }
    false
}

/// The node list to hand out: when some nodes are known to be live and the list is not
/// empty, only the listed nodes that are live, in order; otherwise the whole list.
pub fn filter_live_nodes<T>(list: Vec<NodeInfo<T>>, live: &Vec<Address>) -> (r: Vec<NodeInfo<T>>)
    ensures
        live@.len() == 0 || list@.len() == 0 ==> r@ == list@,
        live@.len() > 0 && list@.len() > 0 ==> r@ == live_nodes(list@, live@),
{
    if live.len() == 0 || list.len() == 0 {
        return list;
    }
    let ghost all = list@;
    let n = list.len();
    let mut rev = reversed(list);
    let mut out: Vec<NodeInfo<T>> = Vec::new();
    let mut i: usize = 0;
    assert(all.take(0) =~= Seq::<NodeInfo<T>>::empty());
    while rev.len() > 0
        invariant
            rev@.len() + i == n,
            n == all.len(),
            forall|t: int| 0 <= t < rev@.len() ==> #[trigger] rev@[t] == all[n - 1 - t],
            out@ == live_nodes(all.take(i as int), live@),
        decreases rev@.len(),
    {
        let ghost before = rev@;
        let x = rev.pop().unwrap();
        proof {
            assert(x == all[i as int]);
            assert forall|t: int| 0 <= t < rev@.len() implies #[trigger] rev@[t] == all[n - 1 - t] by {
                assert(rev@[t] == before[t]);
            }
            assert(all.take(i as int + 1).drop_last() =~= all.take(i as int));
            assert(all.take(i as int + 1).last() == x);
        }
        if address_in(live, &x.node_address) {
            out.push(x);
        }
        i = i + 1;
    }
    proof {
        assert(all.take(n as int) =~= all);
    }
    out
}

/// The bytes of a call's return data: its 32-byte words one after another.
pub open spec fn words_bytes(words: Seq<H256>) -> Seq<u8>
    decreases words.len(),
{
    if words.len() == 0 {
        seq![]
    } else {
        words_bytes(words.drop_last()) + words.last()@
    }
}

/// The output of a system-contract call: the revert data if it reverted, else the
/// return words one after another.
pub fn call_output(revert_data: Option<Vec<u8>>, return_words: &Vec<H256>) -> (r: Vec<u8>)
    ensures
        r@ == match revert_data {
            Some(d) => d@,
            None => words_bytes(return_words@),
        },
{
    match revert_data {
        Some(d) => d,
        None => {
            let mut out: Vec<u8> = Vec::new();
            let n = return_words.len();
            let mut k: usize = 0;
            while k < n
                invariant
                    n == return_words@.len(),
                    k <= n,
                    out@ == words_bytes(return_words@.take(k as int)),
                decreases n - k,
            {
                let w = return_words[k];
                let ghost before = out@;
                let mut t: usize = 0;
                while t < 32
                    invariant
                        t <= 32,
                        w@.len() == 32,
                        out@ == before + w@.take(t as int),
                    decreases 32 - t,
                {
                    out.push(w[t]);
                    assert(w@.take(t as int + 1) =~= w@.take(t as int).push(w@[t as int]));
                    t = t + 1;
                }
                proof {
                    assert(w@.take(32) =~= w@);
                    assert(return_words@.take(k as int + 1).drop_last() =~= return_words@.take(k as int));
                }
                k = k + 1;
            }
            assert(return_words@.take(n as int) =~= return_words@);
            out
        },
    }
}

} // verus!
