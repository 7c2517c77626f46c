//! Predicts the L1 gas cost of the Commit / PublishProof / Execute operations.
use vstd::prelude::*;

verus! {

// Every aggregated cost is overestimated, leaving safety margins.
pub const AGGR_L1_BATCH_COMMIT_BASE_COST: u64 = 60_000_000;
pub const AGGR_L1_BATCH_PROVE_BASE_COST: u64 = 120_000_000;
pub const AGGR_L1_BATCH_EXECUTE_BASE_COST: u64 = 160_000_000;

pub const L1_BATCH_COMMIT_BASE_COST: u64 = 60_000_000;
pub const L1_BATCH_PROVE_BASE_COST: u64 = 120_000_000;
pub const L1_BATCH_EXECUTE_BASE_COST: u64 = 160_000_000;

pub const EXECUTE_COMMIT_COST: u64 = 0;
pub const EXECUTE_EXECUTE_COST: u64 = 0;

pub const L1_OPERATION_EXECUTE_COST: u64 = 12_500;

pub const GAS_PER_BYTE: u64 = 18;

/// The kinds of aggregated L1 operation.
#[derive(Clone, Copy, Debug, PartialEq, Eq, Structural)]
pub enum AggregatedActionType {
    Commit,
    PublishProofOnchain,
    Execute,
}

/// Where a transaction comes from.
#[derive(Clone, Copy, Debug, PartialEq, Eq, Structural)]
pub enum TransactionKind {
    L1,
    L2,
    ProtocolUpgrade,
}

/// Gas needed by each of the three operations of a block.
#[derive(Clone, Copy, Debug, PartialEq, Eq, Structural)]
pub struct BlockGasCount {
    pub commit: u64,
    pub prove: u64,
    pub execute: u64,
}

pub open spec fn spec_agg_base_cost(op: AggregatedActionType) -> u64 {
    match op {
        AggregatedActionType::Commit => AGGR_L1_BATCH_COMMIT_BASE_COST,
        AggregatedActionType::PublishProofOnchain => AGGR_L1_BATCH_PROVE_BASE_COST,
        AggregatedActionType::Execute => AGGR_L1_BATCH_EXECUTE_BASE_COST,
    }
}

pub open spec fn spec_base_cost(op: AggregatedActionType) -> u64 {
    match op {
        AggregatedActionType::Commit => L1_BATCH_COMMIT_BASE_COST,
        AggregatedActionType::PublishProofOnchain => L1_BATCH_PROVE_BASE_COST,
        AggregatedActionType::Execute => L1_BATCH_EXECUTE_BASE_COST,
    }
}

pub open spec fn spec_base_tx_cost(kind: TransactionKind, op: AggregatedActionType) -> u64 {
    match op {
        AggregatedActionType::Commit => EXECUTE_COMMIT_COST,
        AggregatedActionType::PublishProofOnchain => 0,
        AggregatedActionType::Execute => match kind {
            TransactionKind::L1 => L1_OPERATION_EXECUTE_COST,
            _ => EXECUTE_EXECUTE_COST,
        },
    }
}

/// Base cost of an aggregated operation over a batch.
pub fn agg_l1_batch_base_cost(op: AggregatedActionType) -> (c: u64)
    ensures
        c == spec_agg_base_cost(op),
{
    match op {
        AggregatedActionType::Commit => AGGR_L1_BATCH_COMMIT_BASE_COST,
        AggregatedActionType::PublishProofOnchain => AGGR_L1_BATCH_PROVE_BASE_COST,
        AggregatedActionType::Execute => AGGR_L1_BATCH_EXECUTE_BASE_COST,
    }
}

/// Base cost of an operation over one batch.
pub fn l1_batch_base_cost(op: AggregatedActionType) -> (c: u64)
    ensures
        c == spec_base_cost(op),
{
    match op {
        AggregatedActionType::Commit => L1_BATCH_COMMIT_BASE_COST,
        AggregatedActionType::PublishProofOnchain => L1_BATCH_PROVE_BASE_COST,
        AggregatedActionType::Execute => L1_BATCH_EXECUTE_BASE_COST,
    }
}

/// Cost that a transaction of the given kind adds to an operation.
pub fn base_tx_cost(kind: TransactionKind, op: AggregatedActionType) -> (c: u64)
    ensures
        c == spec_base_tx_cost(kind, op),
{
    match op {
        AggregatedActionType::Commit => EXECUTE_COMMIT_COST,
        AggregatedActionType::PublishProofOnchain => 0,
        AggregatedActionType::Execute => match kind {
            TransactionKind::L1 => L1_OPERATION_EXECUTE_COST,
            TransactionKind::L2 => EXECUTE_EXECUTE_COST,
            TransactionKind::ProtocolUpgrade => EXECUTE_EXECUTE_COST,
        },
    }
}

/// Commit cost of publishing `pubdata_size` bytes of execution data.
pub fn additional_pubdata_commit_cost(pubdata_size: usize) -> (c: u64)
    requires
        pubdata_size * GAS_PER_BYTE <= u64::MAX,
    ensures
        c == pubdata_size * GAS_PER_BYTE,
{
    (pubdata_size as u64) * GAS_PER_BYTE
}

/// Commit cost of publishing `writes_size` bytes of deduplicated storage writes.
pub fn additional_writes_commit_cost(writes_size: usize) -> (c: u64)
    requires
        writes_size * GAS_PER_BYTE <= u64::MAX,
    ensures
        c == writes_size * GAS_PER_BYTE,
{
    (writes_size as u64) * GAS_PER_BYTE
}

/// The gas count a new block starts with: the base cost of each operation.
pub fn new_block_gas_count() -> (g: BlockGasCount)
    ensures
        g.commit == spec_base_cost(AggregatedActionType::Commit),
        g.prove == spec_base_cost(AggregatedActionType::PublishProofOnchain),
        g.execute == spec_base_cost(AggregatedActionType::Execute),
{
    BlockGasCount {
        commit: l1_batch_base_cost(AggregatedActionType::Commit),
        prove: l1_batch_base_cost(AggregatedActionType::PublishProofOnchain),
        execute: l1_batch_base_cost(AggregatedActionType::Execute),
    }
}

/// Gas a transaction adds, given its kind and the size of the data it publishes.
pub fn gas_count_from_tx_and_metrics(kind: TransactionKind, pubdata_size: usize) -> (g: BlockGasCount)
    requires
        pubdata_size * GAS_PER_BYTE <= u64::MAX,
    ensures
        g.commit == spec_base_tx_cost(kind, AggregatedActionType::Commit) + pubdata_size * GAS_PER_BYTE,
        g.prove == spec_base_tx_cost(kind, AggregatedActionType::PublishProofOnchain),
        g.execute == spec_base_tx_cost(kind, AggregatedActionType::Execute),
{
    let commit = base_tx_cost(kind, AggregatedActionType::Commit)
        + additional_pubdata_commit_cost(pubdata_size);
    BlockGasCount {
        commit,
        prove: base_tx_cost(kind, AggregatedActionType::PublishProofOnchain),
        execute: base_tx_cost(kind, AggregatedActionType::Execute),
    }
}

/// Gas of publishing `pubdata_size` bytes of execution data.
pub fn gas_count_from_metrics(pubdata_size: usize) -> (g: BlockGasCount)
    requires
        pubdata_size * GAS_PER_BYTE <= u64::MAX,
    ensures
        g.commit == pubdata_size * GAS_PER_BYTE,
        g.prove == 0,
        g.execute == 0,
{
    BlockGasCount { commit: additional_pubdata_commit_cost(pubdata_size), prove: 0, execute: 0 }
}

/// Gas of publishing `writes_size` bytes of deduplicated storage writes.
pub fn gas_count_from_writes(writes_size: usize) -> (g: BlockGasCount)
    requires
        writes_size * GAS_PER_BYTE <= u64::MAX,
    ensures
        g.commit == writes_size * GAS_PER_BYTE,
        g.prove == 0,
        g.execute == 0,
{
    BlockGasCount { commit: additional_writes_commit_cost(writes_size), prove: 0, execute: 0 }
}

/// Compressed data of a batch that goes into its commit transaction.
pub struct CommitMetadata {
    pub initial_writes_compressed: Vec<u8>,
    pub repeated_writes_compressed: Vec<u8>,
    pub l2_l1_messages_compressed: Vec<u8>,
    pub state_diffs_compressed: Vec<u8>,
}

/// Total length of a list of byte strings.
pub open spec fn total_len(v: Seq<Vec<u8>>) -> nat
    decreases v.len(),
{
    if v.len() == 0 {
        0
    } else {
        total_len(v.drop_last()) + v.last()@.len()
    }
}

/// Size of the state diff: the compressed initial and repeated writes before the
/// boojum upgrade (also when the protocol version is unknown), the compressed state
/// diffs after it.
pub open spec fn state_diff_size(pre_boojum: Option<bool>, m: CommitMetadata) -> nat {
    if pre_boojum.unwrap_or(true) {
        m.initial_writes_compressed@.len() + m.repeated_writes_compressed@.len()
    } else {
        m.state_diffs_compressed@.len()
    }
}

/// Commit gas of a batch.
pub open spec fn spec_commit_gas(
    messages: Seq<Vec<u8>>,
    factory_deps: Seq<Vec<u8>>,
    pre_boojum: Option<bool>,
    m: CommitMetadata,
) -> int {
    L1_BATCH_COMMIT_BASE_COST + (state_diff_size(pre_boojum, m) + m.repeated_writes_compressed@.len()
        + m.l2_l1_messages_compressed@.len() + total_len(messages) + total_len(factory_deps))
        * GAS_PER_BYTE
}

proof fn lemma_total_len_take(v: Seq<Vec<u8>>, k: int)
    requires
        0 <= k < v.len(),
    ensures
        total_len(v.take(k + 1)) == total_len(v.take(k)) + v[k]@.len(),
{
    assert(v.take(k + 1).drop_last() =~= v.take(k));
}

proof fn lemma_total_len_prefix(v: Seq<Vec<u8>>, k: int)
    requires
        0 <= k <= v.len(),
    ensures
        total_len(v.take(k)) <= total_len(v),
    decreases v.len() - k,
{
    if k < v.len() {
        lemma_total_len_take(v, k);
        lemma_total_len_prefix(v, k + 1);
    } else {
        assert(v.take(k) =~= v);
    }
}

/// The commit gas is additive over the published lists: one more factory dependency
/// of `k` bytes, or one more L2-to-L1 message of `k` bytes, raises it by exactly
/// `GAS_PER_BYTE * k`.
pub proof fn law_commit_gas_additive(
    messages: Seq<Vec<u8>>,
    factory_deps: Seq<Vec<u8>>,
    pre_boojum: Option<bool>,
    m: CommitMetadata,
    extra: Vec<u8>,
)
    ensures
        spec_commit_gas(messages, factory_deps.push(extra), pre_boojum, m)
            == spec_commit_gas(messages, factory_deps, pre_boojum, m) + GAS_PER_BYTE * extra@.len(),
        spec_commit_gas(messages.push(extra), factory_deps, pre_boojum, m)
            == spec_commit_gas(messages, factory_deps, pre_boojum, m) + GAS_PER_BYTE * extra@.len(),
{
    assert(factory_deps.push(extra).drop_last() =~= factory_deps);
    assert(messages.push(extra).drop_last() =~= messages);
    assert(total_len(factory_deps.push(extra)) == total_len(factory_deps) + extra@.len());
    assert(total_len(messages.push(extra)) == total_len(messages) + extra@.len());
    let sd = state_diff_size(pre_boojum, m) + m.repeated_writes_compressed@.len() + m.l2_l1_messages_compressed@.len();
    assert(GAS_PER_BYTE * (sd + total_len(messages) + total_len(factory_deps) + extra@.len())
        == GAS_PER_BYTE * (sd + total_len(messages) + total_len(factory_deps)) + GAS_PER_BYTE * extra@.len()) by (nonlinear_arith);
}

/// A batch that publishes no messages and no factory dependencies costs the base cost
/// and `GAS_PER_BYTE` per byte of its compressed data: the initial and repeated writes
/// (counted as state diff) before the boojum upgrade or when the version is unknown, the
/// state diffs after it; then the repeated writes and the compressed messages.
pub proof fn law_commit_gas_without_lists(pre_boojum: Option<bool>, m: CommitMetadata)
    ensures
        spec_commit_gas(seq![], seq![], pre_boojum, m) == 60_000_000 + 18 * (
            (if pre_boojum == Some(false) {
                m.state_diffs_compressed@.len()
            } else {
                m.initial_writes_compressed@.len() + m.repeated_writes_compressed@.len()
            })
            + m.repeated_writes_compressed@.len() + m.l2_l1_messages_compressed@.len()),
{
}

fn sum_lengths(v: &Vec<Vec<u8>>, bound: Ghost<int>) -> (r: u64)
    requires
        total_len(v@) <= bound@,
        bound@ <= u64::MAX,
    ensures
        r == total_len(v@),
{
    let n = v.len();
    let mut acc: u64 = 0;
    let mut k: usize = 0;
    while k < n
        invariant
            n == v@.len(),
            k <= n,
            acc == total_len(v@.take(k as int)),
            total_len(v@) <= bound@,
            bound@ <= u64::MAX,
        decreases n - k,
    {
        proof {
            lemma_total_len_take(v@, k as int);
            lemma_total_len_prefix(v@, k as int + 1);
        }
        acc = acc + v[k].len() as u64;
        k = k + 1;
    }
    assert(v@.take(n as int) =~= v@);
    acc
}

/// Commit gas of a batch, from its L2-to-L1 messages, its factory dependencies in order
/// of appearance, whether its protocol version precedes the boojum upgrade (`None`
/// when it has no version) and its compressed metadata.
pub fn commit_gas_count_for_l1_batch(
    l2_to_l1_messages: &Vec<Vec<u8>>,
    factory_deps_in_order: &Vec<Vec<u8>>,
    pre_boojum: Option<bool>,
    metadata: &CommitMetadata,
) -> (g: u64)
    requires
        spec_commit_gas(l2_to_l1_messages@, factory_deps_in_order@, pre_boojum, *metadata) <= u64::MAX,
    ensures
        g == spec_commit_gas(l2_to_l1_messages@, factory_deps_in_order@, pre_boojum, *metadata),
{
    let base_cost = l1_batch_base_cost(AggregatedActionType::Commit);
    let ghost bound: int = u64::MAX as int;
    let total_messages_len = sum_lengths(l2_to_l1_messages, Ghost(bound));
    let total_factory_deps_len = sum_lengths(factory_deps_in_order, Ghost(bound));
    let is_pre_boojum = match pre_boojum {
        Some(b) => b,
        None => true,
    };
    let state_diff_size: u64 = if is_pre_boojum {
        metadata.initial_writes_compressed.len() as u64
            + metadata.repeated_writes_compressed.len() as u64
    } else {
        metadata.state_diffs_compressed.len() as u64
    };
    let additional_calldata_bytes = state_diff_size
        + metadata.repeated_writes_compressed.len() as u64
        + metadata.l2_l1_messages_compressed.len() as u64
        + total_messages_len
        + total_factory_deps_len;
    let additional_cost = additional_calldata_bytes * GAS_PER_BYTE;
    base_cost + additional_cost
}

} // verus!
