//! Storage bookkeeping: unique storage updates of a block, the rows that storage logs are
//! copied into the database with, and what rolling storage back to a batch must do.
use vstd::prelude::*;
use crate::types::{Address, H256, bytes_eq};
use crate::text::{decimal, push_decimal};

verus! {

/// A storage slot: an account and a key within it.
#[derive(Clone, Copy, Debug)]
pub struct StorageKey {
    pub address: Address,
    pub key: H256,
}

/// A write to a storage slot. `hashed_key` is the slot's hashed key.
#[derive(Clone, Copy, Debug)]
pub struct StorageLog {
    pub key: StorageKey,
    pub hashed_key: H256,
    pub value: H256,
}

/// Two storage keys name the same slot.
pub open spec fn same_slot(a: StorageKey, b: StorageKey) -> bool {
    a.address@ == b.address@ && a.key@ == b.key@
}

// ---------------------------------------------------------------------------
// Hex encoding of byte strings

/// The lowercase hex digit of `d` (`d < 16`).
pub open spec fn hex_digit(d: int) -> char {
    if 0 <= d < 10 {
        ((d + 48) as u8) as char
    } else {
        ((d - 10 + 97) as u8) as char
    }
}

/// Lowercase hex of bytes, two digits per byte, high half first.
pub open spec fn hex_lower(b: Seq<u8>) -> Seq<char>
    decreases b.len(),
{
    if b.len() == 0 {
        seq![]
    } else {
        hex_lower(b.drop_last()) + seq![hex_digit(b.last() as int / 16), hex_digit(b.last() as int % 16)]
    }
}

/// Calls `hex::encode`. Its source maps each byte to two characters of the table
/// `0123456789abcdef`, the high four bits first, and collects them into a string.
#[verifier::external_body]
fn hex_encode(data: &[u8]) -> (s: String)
    ensures
        s@ == hex_lower(data@),
{
    hex::encode(data)
}

// ---------------------------------------------------------------------------
// Rows of the storage-log copy

/// A byte string written as a Postgres `bytea` literal in the copy format: `\\x` and its hex.
pub open spec fn bytea(b: Seq<u8>) -> Seq<char> {
    seq!['\\', '\\', 'x'] + hex_lower(b)
}

/// The copy row of one storage log:
/// `hashed_key|address|key|value|operation_number|tx_hash|block|now|now` and a newline.
pub open spec fn copy_row(log: StorageLog, operation_number: nat, tx_hash: H256, block: nat, now: Seq<char>) -> Seq<char> {
    bytea(log.hashed_key@) + seq!['|'] + bytea(log.key.address@) + seq!['|'] + bytea(log.key.key@)
        + seq!['|'] + bytea(log.value@) + seq!['|'] + decimal(operation_number) + seq!['|']
        + bytea(tx_hash@) + seq!['|'] + decimal(block) + seq!['|'] + now + seq!['|'] + now
        + seq!['\n']
}

/// The storage logs of the transactions, one after another, each with its transaction's hash.
pub open spec fn flat_logs(logs: Seq<(H256, Vec<StorageLog>)>) -> Seq<(H256, StorageLog)>
    decreases logs.len(),
{
    if logs.len() == 0 {
        seq![]
    } else {
        let (tx, l) = logs.last();
        flat_logs(logs.drop_last()) + l@.map_values(|x: StorageLog| (tx, x))
    }
}

/// The copy rows of `flat`, numbered from `first`.
pub open spec fn copy_rows(flat: Seq<(H256, StorageLog)>, first: nat, block: nat, now: Seq<char>) -> Seq<char>
    decreases flat.len(),
{
    if flat.len() == 0 {
        seq![]
    } else {
        let (tx, log) = flat.last();
        copy_rows(flat.drop_last(), first, block, now)
            + copy_row(log, (first + flat.len() - 1) as nat, tx, block, now)
    }
}

fn push_bytea(out: &mut String, b: &[u8])
    ensures
        final(out)@ == old(out)@ + bytea(b@),
{
    proof {
        reveal_strlit("\\\\x");
    }
    out.append("\\\\x");
    let h = hex_encode(b);
    out.append(h.as_str());
}

fn push_sep(out: &mut String)
    ensures
        final(out)@ == old(out)@ + seq!['|'],
{
    proof {
        reveal_strlit("|");
    }
    out.append("|");
}

fn push_row(out: &mut String, log: &StorageLog, operation_number: u32, tx_hash: &H256, block: u32, now: &str)
    ensures
        final(out)@ == old(out)@ + copy_row(*log, operation_number as nat, *tx_hash, block as nat, now@),
{
    let ghost start = out@;
    push_bytea(out, log.hashed_key.as_slice());
    push_sep(out);
    push_bytea(out, log.key.address.as_slice());
    push_sep(out);
    push_bytea(out, log.key.key.as_slice());
    push_sep(out);
    push_bytea(out, log.value.as_slice());
    push_sep(out);
    push_decimal(out, operation_number as u64);
    push_sep(out);
    push_bytea(out, tx_hash.as_slice());
    push_sep(out);
    push_decimal(out, block as u64);
    push_sep(out);
    out.append(now);
    push_sep(out);
    out.append(now);
    proof {
        reveal_strlit("\n");
    }
    out.append("\n");
    assert(out@ =~= start + copy_row(*log, operation_number as nat, *tx_hash, block as nat, now@));
}

proof fn lemma_flat_logs_step(logs: Seq<(H256, Vec<StorageLog>)>, i: int, j: int)
    requires
        0 <= i < logs.len(),
        0 <= j < logs[i].1@.len(),
    ensures
        flat_logs(logs.take(i)) + logs[i].1@.take(j + 1).map_values(|x: StorageLog| (logs[i].0, x))
            == (flat_logs(logs.take(i)) + logs[i].1@.take(j).map_values(|x: StorageLog| (logs[i].0, x)))
                .push((logs[i].0, logs[i].1@[j])),
{
    let a = flat_logs(logs.take(i));
    let tx = logs[i].0;
    let l = logs[i].1@;
    assert(l.take(j + 1).map_values(|x: StorageLog| (tx, x)) =~= l.take(j).map_values(|x: StorageLog| (tx, x)).push((tx, l[j])));
    assert(a + l.take(j + 1).map_values(|x: StorageLog| (tx, x)) =~= (a + l.take(j).map_values(|x: StorageLog| (tx, x))).push((tx, l[j])));
}

proof fn lemma_flat_logs_next(logs: Seq<(H256, Vec<StorageLog>)>, i: int)
    requires
        0 <= i < logs.len(),
    ensures
        flat_logs(logs.take(i + 1))
            == flat_logs(logs.take(i)) + logs[i].1@.take(logs[i].1@.len() as int).map_values(|x: StorageLog| (logs[i].0, x)),
{
    assert(logs.take(i + 1).drop_last() =~= logs.take(i));
    assert(logs[i].1@.take(logs[i].1@.len() as int) =~= logs[i].1@);
}

/// The payload that copies the storage logs of a block into the database, the operation
/// numbers counting on from `first_operation_number`; `now` is the creation time.
pub fn storage_logs_copy_payload(
    block_number: u32,
    logs: &Vec<(H256, Vec<StorageLog>)>,
    first_operation_number: u32,
    now: &str,
) -> (r: String)
    requires
        first_operation_number + flat_logs(logs@).len() <= u32::MAX,
    ensures
        r@ == copy_rows(flat_logs(logs@), first_operation_number as nat, block_number as nat, now@),
{
    let ghost all = flat_logs(logs@);
    let mut out = String::new();
    let mut operation_number: u32 = first_operation_number;
    let n = logs.len();
    let mut i: usize = 0;
    proof {
        assert(logs@.take(0) =~= Seq::<(H256, Vec<StorageLog>)>::empty());
        assert(flat_logs(logs@.take(0)) =~= Seq::<(H256, StorageLog)>::empty());
    }
    while i < n
        invariant
            n == logs@.len(),
            i <= n,
            all == flat_logs(logs@),
            first_operation_number + all.len() <= u32::MAX,
            operation_number == first_operation_number + flat_logs(logs@.take(i as int)).len(),
            flat_logs(logs@.take(i as int)).len() <= all.len(),
            out@ == copy_rows(flat_logs(logs@.take(i as int)), first_operation_number as nat, block_number as nat, now@),
        decreases n - i,
    {
        let tx_hash = &logs[i].0;
        let entries = &logs[i].1;
        let m = entries.len();
        let ghost before = flat_logs(logs@.take(i as int));
        let mut j: usize = 0;
        proof {
            assert(entries@.take(0).map_values(|x: StorageLog| (*tx_hash, x)) =~= Seq::<(H256, StorageLog)>::empty());
            assert(before + entries@.take(0).map_values(|x: StorageLog| (*tx_hash, x)) =~= before);
            lemma_flat_logs_next(logs@, i as int);
            lemma_flat_prefix_len(logs@, i as int + 1);
            assert(entries@.take(m as int).map_values(|x: StorageLog| (*tx_hash, x)).len() == m);
        }
        while j < m
            invariant
                n == logs@.len(),
                i < n,
                m == entries@.len(),
                entries == logs@[i as int].1,
                *tx_hash == logs@[i as int].0,
                j <= m,
                all == flat_logs(logs@),
                before == flat_logs(logs@.take(i as int)),
                flat_logs(logs@.take(i as int + 1)) == before + entries@.take(m as int).map_values(|x: StorageLog| (*tx_hash, x)),
                flat_logs(logs@.take(i as int + 1)).len() <= all.len(),
                before.len() + m <= all.len(),
                first_operation_number + all.len() <= u32::MAX,
                operation_number == first_operation_number + before.len() + j,
                out@ == copy_rows(before + entries@.take(j as int).map_values(|x: StorageLog| (*tx_hash, x)),
                    first_operation_number as nat, block_number as nat, now@),
            decreases m - j,
        {
            let ghost cur = before + entries@.take(j as int).map_values(|x: StorageLog| (*tx_hash, x));
            let ghost nxt = before + entries@.take(j as int + 1).map_values(|x: StorageLog| (*tx_hash, x));
            proof {
                lemma_flat_logs_step(logs@, i as int, j as int);
                assert(nxt == cur.push((*tx_hash, entries@[j as int])));
                assert(nxt.drop_last() =~= cur);
                assert(nxt.len() <= before.len() + m);
            }
            push_row(&mut out, &entries[j], operation_number, tx_hash, block_number, now);
            proof {
                assert(copy_rows(nxt, first_operation_number as nat, block_number as nat, now@)
                    == copy_rows(cur, first_operation_number as nat, block_number as nat, now@)
                        + copy_row(entries@[j as int], operation_number as nat, *tx_hash, block_number as nat, now@));
            }
            operation_number = operation_number + 1;
            j = j + 1;
        }
        proof {
            assert(entries@.take(m as int) =~= entries@);
        }
        i = i + 1;
    }
    assert(logs@.take(n as int) =~= logs@);
    out
}

proof fn lemma_flat_prefix_len(logs: Seq<(H256, Vec<StorageLog>)>, i: int)
    requires
        0 <= i <= logs.len(),
    ensures
        flat_logs(logs.take(i)).len() <= flat_logs(logs).len(),
    decreases logs.len() - i,
{
    if i < logs.len() {
        lemma_flat_prefix_len(logs, i + 1);
        assert(logs.take(i + 1).drop_last() =~= logs.take(i));
    } else {
        assert(logs.take(i) =~= logs);
    }
}


// ---------------------------------------------------------------------------
// Unique updates of a block

/// Whether `flat` writes to slot `k`.
pub open spec fn writes_slot(flat: Seq<(H256, StorageLog)>, k: StorageKey) -> bool {
    exists|m: int| 0 <= m < flat.len() && same_slot(#[trigger] flat[m].1.key, k)
}

/// The slots written to, each once, in order of their first write.
pub open spec fn written_slots(flat: Seq<(H256, StorageLog)>) -> Seq<StorageKey>
    decreases flat.len(),
{
    if flat.len() == 0 {
        seq![]
    } else {
        let ks = written_slots(flat.drop_last());
        if writes_slot(flat.drop_last(), flat.last().1.key) {
            ks
        } else {
            ks.push(flat.last().1.key)
        }
    }
}

/// The last write to slot `k`: its transaction hash and value.
pub open spec fn last_write(flat: Seq<(H256, StorageLog)>, k: StorageKey) -> (Seq<u8>, Seq<u8>)
    decreases flat.len(),
{
    if flat.len() == 0 {
        (seq![], seq![])
    } else if same_slot(flat.last().1.key, k) {
        (flat.last().0@, flat.last().1.value@)
    } else {
        last_write(flat.drop_last(), k)
    }
}

/// `updates` holds each written slot once, in order of first write, with its last write.
pub open spec fn unique_updates_of(updates: Seq<(StorageKey, (H256, H256))>, flat: Seq<(H256, StorageLog)>) -> bool {
    let ks = written_slots(flat);
    &&& updates.len() == ks.len()
    &&& forall|i: int| 0 <= i < updates.len() ==> {
        &&& same_slot(#[trigger] updates[i].0, ks[i])
        &&& (updates[i].1.0@, updates[i].1.1@) == last_write(flat, ks[i])
    }
}

proof fn lemma_written_slots_cover(flat: Seq<(H256, StorageLog)>, k: StorageKey)
    ensures
        writes_slot(flat, k) ==> exists|i: int| 0 <= i < written_slots(flat).len() && same_slot(#[trigger] written_slots(flat)[i], k),
        (exists|i: int| 0 <= i < written_slots(flat).len() && same_slot(#[trigger] written_slots(flat)[i], k)) ==> writes_slot(flat, k),
    decreases flat.len(),
{
    if flat.len() > 0 {
        let p = flat.drop_last();
        let last = flat.last().1.key;
        let ks = written_slots(flat);
        let kp = written_slots(p);
        lemma_written_slots_cover(p, k);
        lemma_written_slots_cover(p, last);
        assert(forall|m: int| 0 <= m < p.len() ==> #[trigger] p[m] == flat[m]);
        if writes_slot(flat, k) {
            let m = choose|m: int| 0 <= m < flat.len() && same_slot(#[trigger] flat[m].1.key, k);
            if m < flat.len() - 1 {
                assert(same_slot(p[m].1.key, k));
                assert(writes_slot(p, k));
                let i = choose|i: int| 0 <= i < kp.len() && same_slot(#[trigger] kp[i], k);
                if writes_slot(p, last) {
                    assert(ks == kp);
                    assert(same_slot(ks[i], k));
                } else {
                    assert(ks == kp.push(last));
                    assert(same_slot(ks[i], k));
                }
            } else {
                assert(same_slot(last, k));
                if writes_slot(p, last) {
                    let i = choose|i: int| 0 <= i < kp.len() && same_slot(#[trigger] kp[i], last);
                    assert(ks == kp);
                    assert(same_slot(ks[i], k));
                } else {
                    assert(ks == kp.push(last));
                    assert(same_slot(ks[kp.len() as int], k));
                }
            }
        }
        if exists|i: int| 0 <= i < ks.len() && same_slot(#[trigger] ks[i], k) {
            let i = choose|i: int| 0 <= i < ks.len() && same_slot(#[trigger] ks[i], k);
            if writes_slot(p, last) {
                assert(ks == kp);
                assert(same_slot(kp[i], k));
                let m = choose|m: int| 0 <= m < p.len() && same_slot(#[trigger] p[m].1.key, k);
                assert(same_slot(flat[m].1.key, k));
            } else {
                assert(ks == kp.push(last));
                if i < kp.len() {
                    assert(same_slot(kp[i], k));
                    let m = choose|m: int| 0 <= m < p.len() && same_slot(#[trigger] p[m].1.key, k);
                    assert(same_slot(flat[m].1.key, k));
                } else {
                    assert(same_slot(flat[flat.len() - 1].1.key, k));
                }
            }
        }
    }
}

proof fn lemma_written_slots_distinct(flat: Seq<(H256, StorageLog)>)
    ensures
        forall|i: int, j: int| 0 <= i < j < written_slots(flat).len() ==> !same_slot(#[trigger] written_slots(flat)[i], #[trigger] written_slots(flat)[j]),
    decreases flat.len(),
{
    if flat.len() > 0 {
        let p = flat.drop_last();
        let last = flat.last().1.key;
        let kp = written_slots(p);
        lemma_written_slots_distinct(p);
        lemma_written_slots_cover(p, last);
        if !writes_slot(p, last) {
            assert(written_slots(flat) == kp.push(last));
            assert forall|i: int| 0 <= i < kp.len() implies !same_slot(#[trigger] kp[i], last) by {
                if same_slot(kp[i], last) {
                    assert(writes_slot(p, last));
                }
            }
        }
    }
}

/// The distinct slots written by the transactions' storage logs, in order of first
/// write, each with the transaction hash and value of its last write.
pub fn unique_storage_updates(updates: &Vec<(H256, Vec<StorageLog>)>) -> (r: Vec<(StorageKey, (H256, H256))>)
    ensures
        unique_updates_of(r@, flat_logs(updates@)),
        forall|i: int, j: int| 0 <= i < j < r@.len() ==> !same_slot(#[trigger] r@[i].0, #[trigger] r@[j].0),
{
    let mut out: Vec<(StorageKey, (H256, H256))> = Vec::new();
    let n = updates.len();
    let mut i: usize = 0;
    let ghost mut cur: Seq<(H256, StorageLog)> = seq![];
    proof {
        assert(updates@.take(0) =~= Seq::<(H256, Vec<StorageLog>)>::empty());
        assert(flat_logs(updates@.take(0)) =~= cur);
    }
    while i < n
        invariant
            n == updates@.len(),
            i <= n,
            cur == flat_logs(updates@.take(i as int)),
            unique_updates_of(out@, cur),
        decreases n - i,
    {
        let tx_hash = updates[i].0;
        let logs = &updates[i].1;
        let m = logs.len();
        let ghost before = cur;
        let mut j: usize = 0;
        proof {
            assert(logs@.take(0).map_values(|x: StorageLog| (tx_hash, x)) =~= Seq::<(H256, StorageLog)>::empty());
            assert(before + logs@.take(0).map_values(|x: StorageLog| (tx_hash, x)) =~= before);
        }
        while j < m
            invariant
                n == updates@.len(),
                i < n,
                m == logs@.len(),
                logs == updates@[i as int].1,
                tx_hash == updates@[i as int].0,
                j <= m,
                before == flat_logs(updates@.take(i as int)),
                cur == before + logs@.take(j as int).map_values(|x: StorageLog| (tx_hash, x)),
                unique_updates_of(out@, cur),
            decreases m - j,
        {
            let log = logs[j];
            let ghost nxt = cur.push((tx_hash, log));
            proof {
                lemma_flat_logs_step(updates@, i as int, j as int);
                assert(nxt.drop_last() =~= cur);
                assert(nxt.last() == (tx_hash, log));
                lemma_written_slots_cover(cur, log.key);
                lemma_written_slots_distinct(cur);
            }
            // find the slot among the updates so far
            let len = out.len();
            let mut t: usize = 0;
            while t < len && !(bytes_eq(&out[t].0.address, &log.key.address) && bytes_eq(&out[t].0.key, &log.key.key))
                invariant
                    len == out@.len(),
                    t <= len,
                    forall|u: int| 0 <= u < t ==> !same_slot(#[trigger] out@[u].0, log.key),
                decreases len - t,
            {
                t = t + 1;
            }
            let found = t < len;
            let ghost ks = written_slots(cur);
            if found {
                proof {
                    assert(same_slot(out@[t as int].0, log.key));
                    assert(same_slot(ks[t as int], log.key));
                    assert(writes_slot(cur, log.key));
                    assert(written_slots(nxt) == ks);
                }
                let old_key = out[t].0;
                let ghost prev = out@;
                out.set(t, (old_key, (tx_hash, log.value)));
                proof {
                    assert(nxt.last().1.key == log.key);
                    assert(nxt.last().0 == tx_hash);
                    assert forall|u: int| 0 <= u < out@.len() implies {
                        &&& same_slot(#[trigger] out@[u].0, ks[u])
                        &&& (out@[u].1.0@, out@[u].1.1@) == last_write(nxt, ks[u])
                    } by {
                        if u != t {
                            assert(out@[u] == prev[u]);
                            assert(same_slot(prev[u].0, ks[u]));
                            assert(!same_slot(ks[u], ks[t as int]));
                            assert(!same_slot(log.key, ks[u]));
                            assert(last_write(nxt, ks[u]) == last_write(cur, ks[u]));
                        } else {
                            assert(same_slot(prev[u].0, ks[u]));
                            assert(same_slot(log.key, ks[u]));
                            assert(last_write(nxt, ks[u]) == (tx_hash@, log.value@));
                        }
                    }
                }
            } else {
                proof {
                    assert(!writes_slot(cur, log.key)) by {
                        if writes_slot(cur, log.key) {
                            let u = choose|u: int| 0 <= u < ks.len() && same_slot(#[trigger] ks[u], log.key);
                            assert(same_slot(out@[u].0, ks[u]));
                            assert(same_slot(out@[u].0, log.key));
                            assert(false);
                        }
                    }
                    assert(written_slots(nxt) == ks.push(log.key));
                }
                let ghost prev = out@;
                out.push((log.key, (tx_hash, log.value)));
                proof {
                    let ks2 = written_slots(nxt);
                    assert(ks2 == ks.push(log.key));
                    assert(nxt.last().1.key == log.key);
                    assert(nxt.last().0 == tx_hash);
                    assert forall|u: int| 0 <= u < out@.len() implies {
                        &&& same_slot(#[trigger] out@[u].0, ks2[u])
                        &&& (out@[u].1.0@, out@[u].1.1@) == last_write(nxt, ks2[u])
                    } by {
                        if u < ks.len() {
                            assert(out@[u] == prev[u]);
                            assert(ks2[u] == ks[u]);
                            assert(same_slot(prev[u].0, ks[u]));
                            assert(!same_slot(log.key, ks[u])) by {
                                if same_slot(log.key, ks[u]) {
                                    assert(same_slot(ks[u], log.key));
                                    assert(writes_slot(cur, log.key));
                                }
                            }
                            assert(last_write(nxt, ks[u]) == last_write(cur, ks[u]));
                        } else {
                            assert(ks2[u] == log.key);
                            assert(out@[u] == (log.key, (tx_hash, log.value)));
                        }
                    }
                }
            }
            proof {
                cur = nxt;
            }
            j = j + 1;
        }
        proof {
            lemma_flat_logs_next(updates@, i as int);
            assert(logs@.take(m as int) =~= logs@);
        }
        i = i + 1;
    }
    assert(updates@.take(n as int) =~= updates@);
    proof {
        let flat = flat_logs(updates@);
        let ks = written_slots(flat);
        lemma_written_slots_distinct(flat);
        assert forall|a: int, b: int| 0 <= a < b < out@.len() implies !same_slot(#[trigger] out@[a].0, #[trigger] out@[b].0) by {
            assert(same_slot(out@[a].0, ks[a]));
            assert(same_slot(out@[b].0, ks[b]));
            assert(!same_slot(ks[a], ks[b]));
        }
    }
    out
}


// ---------------------------------------------------------------------------
// Reverting storage to a batch

/// What reverting a changed key to an earlier batch does with it.
#[derive(Clone, Copy, Debug, PartialEq, Eq, Structural)]
pub enum RevertStep {
    /// The key was first written after the batch: remove it.
    Remove,
    /// The key was rewritten after the batch: restore its value as of the batch.
    RestorePrevious,
}

/// The step for a key first written in batch `initially_written_at` (`None`: never
/// written to storage, nothing to revert) when reverting to `l1_batch_number`.
pub open spec fn spec_revert_step(initially_written_at: Option<u32>, l1_batch_number: u32) -> Option<RevertStep> {
    match initially_written_at {
        None => None,
        Some(b) => if b > l1_batch_number {
            Some(RevertStep::Remove)
        } else {
            Some(RevertStep::RestorePrevious)
        },
    }
}

/// The step for each changed key that has one, in order.
pub open spec fn spec_revert_plan(keys: Seq<H256>, initially_written_at: Seq<Option<u32>>, l1_batch_number: u32) -> Seq<(H256, RevertStep)>
    decreases keys.len(),
{
    if keys.len() == 0 || initially_written_at.len() == 0 {
        seq![]
    } else {
        let rest = spec_revert_plan(keys.drop_last(), initially_written_at.drop_last(), l1_batch_number);
        match spec_revert_step(initially_written_at.last(), l1_batch_number) {
            None => rest,
            Some(step) => rest.push((keys.last(), step)),
        }
    }
}

/// The step for one key.
pub fn revert_step(initially_written_at: Option<u32>, l1_batch_number: u32) -> (r: Option<RevertStep>)
    ensures
        r == spec_revert_step(initially_written_at, l1_batch_number),
{
    match initially_written_at {
        None => None,
        Some(b) => if b > l1_batch_number {
            Some(RevertStep::Remove)
        } else {
            Some(RevertStep::RestorePrevious)
        },
    }
}

/// The steps that revert the keys changed after batch `l1_batch_number`, given for each
/// key the batch it was first written in.
pub fn storage_revert_plan(keys: &Vec<H256>, initially_written_at: &Vec<Option<u32>>, l1_batch_number: u32) -> (r: Vec<(H256, RevertStep)>)
    requires
        keys@.len() == initially_written_at@.len(),
    ensures
        r@ == spec_revert_plan(keys@, initially_written_at@, l1_batch_number),
{
    let n = keys.len();
    let mut out: Vec<(H256, RevertStep)> = Vec::new();
    let mut k: usize = 0;
    while k < n
        invariant
            n == keys@.len(),
            n == initially_written_at@.len(),
            k <= n,
            out@ == spec_revert_plan(keys@.take(k as int), initially_written_at@.take(k as int), l1_batch_number),
        decreases n - k,
    {
        proof {
            assert(keys@.take(k as int + 1).drop_last() =~= keys@.take(k as int));
            assert(initially_written_at@.take(k as int + 1).drop_last() =~= initially_written_at@.take(k as int));
        }
        match revert_step(initially_written_at[k], l1_batch_number) {
            None => {},
            Some(step) => out.push((keys[k], step)),
        }
        k = k + 1;
    }
    assert(keys@.take(n as int) =~= keys@);
    assert(initially_written_at@.take(n as int) =~= initially_written_at@);
    out
}

} // verus!
