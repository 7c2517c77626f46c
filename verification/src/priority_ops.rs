//! Assembly of new priority (L1) operations from the events of a block range:
//! factory dependencies arrive split into parts, operations may arrive twice,
//! and only operations from the next expected serial id on are new.
use vstd::prelude::*;
use itertools::Itertools;
use crate::types::{H256, bytes_eq};
use std::collections::HashMap;

verus! {

/// One part of a factory dependency, as carried by a `NewPriorityRequestFactoryDeps` event.
#[derive(Debug)]
pub struct L1FactoryDep {
    /// Serial id of the priority operation the dependency belongs to.
    pub serial_id: u64,
    /// Position of the dependency among the operation's dependencies.
    pub dep_index: u32,
    /// Position of this part within the dependency's bytes.
    pub splitted_index: u32,
    /// The part's bytes.
    pub bytes: Vec<u8>,
}

/// The plain value of a dependency part.
pub struct DepView {
    pub serial_id: u64,
    pub dep_index: u32,
    pub splitted_index: u32,
    pub bytes: Seq<u8>,
}

impl View for L1FactoryDep {
    type V = DepView;

    open spec fn view(&self) -> DepView {
        DepView {
            serial_id: self.serial_id,
            dep_index: self.dep_index,
            splitted_index: self.splitted_index,
            bytes: self.bytes@,
        }
    }
}

/// The plain values of a sequence of dependency parts.
pub open spec fn parts_view(v: Seq<L1FactoryDep>) -> Seq<DepView> {
    v.map_values(|d: L1FactoryDep| d@)
}

/// A priority operation parsed from a `NewPriorityRequest` event: what the assembly reads of it.
#[derive(Clone, Copy, Debug)]
pub struct PriorityOp {
    /// Serial id of the operation.
    pub serial_id: u64,
    /// L1 block the operation was emitted in.
    pub eth_block: u64,
    /// Position of the parsed transaction in the caller's list.
    pub source_index: usize,
}

/// A new priority operation, with its factory dependencies reassembled.
#[derive(Debug)]
pub struct NewPriorityOp {
    pub serial_id: u64,
    pub eth_block: u64,
    pub source_index: usize,
    pub factory_deps: Vec<Vec<u8>>,
}

/// Why a batch of events cannot be taken in.
#[derive(Clone, Copy, Debug, PartialEq, Eq, Structural)]
pub enum PriorityOpsError {
    /// Some operation's dependency indices do not run from 0 without holes.
    DepIndexOutOfRange,
    /// There is a gap in the serial ids of the received operations.
    Gap,
    /// The first new operation is not the next expected one.
    SerialIdMismatch,
    /// The last new serial id has no successor.
    SerialIdOverflow,
}

/// What an event is, by its first topic.
#[derive(Clone, Copy, Debug, PartialEq, Eq, Structural)]
pub enum EventKind {
    PriorityRequest,
    FactoryDeps,
    Other,
}

// ---------------------------------------------------------------------------
// Dependency parts

/// Whether some part of operation `s` has dependency index `j`.
pub open spec fn present(v: Seq<DepView>, s: u64, j: u32) -> bool {
    exists|m: int| 0 <= m < v.len() && v[m].serial_id == s && v[m].dep_index == j
}

/// The dependency indices of every operation run from 0 without holes
/// (so that the dependency list of each operation can be indexed by them).
pub open spec fn deps_dense(v: Seq<DepView>) -> bool {
    forall|k: int, j: u32|
        0 <= k < v.len() && j < v[k].dep_index ==> #[trigger] present(v, v[k].serial_id, j)
}

/// The number of dependencies of operation `s`: one past its largest dependency index.
pub open spec fn dep_count(v: Seq<DepView>, s: u64) -> nat
    decreases v.len(),
{
    if v.len() == 0 {
        0
    } else {
        let prev = dep_count(v.drop_last(), s);
        let d = v.last();
        if d.serial_id == s && d.dep_index + 1 > prev {
            (d.dep_index + 1) as nat
        } else {
            prev
        }
    }
}

/// The parts of dependency `i` of operation `s`, in arrival order.
pub open spec fn parts_with(v: Seq<DepView>, s: u64, i: u32) -> Seq<DepView>
    decreases v.len(),
{
    if v.len() == 0 {
        seq![]
    } else {
        let r = parts_with(v.drop_last(), s, i);
        let d = v.last();
        if d.serial_id == s && d.dep_index == i {
            r.push(d)
        } else {
            r
        }
    }
}

/// Keeps the first part of each split index.
pub open spec fn unique_parts(v: Seq<DepView>) -> Seq<DepView>
    decreases v.len(),
{
    if v.len() == 0 {
        seq![]
    } else {
        let u = unique_parts(v.drop_last());
        if exists|j: int| 0 <= j < v.len() - 1 && v[j].splitted_index == v.last().splitted_index {
            u
        } else {
            u.push(v.last())
        }
    }
}

/// Position of the first part with the least split index.
pub open spec fn min_split_position(v: Seq<DepView>) -> int
    decreases v.len(),
{
    if v.len() <= 1 {
        0
    } else {
        let m = min_split_position(v.drop_last());
        if 0 <= m < v.len() - 1 && v.last().splitted_index < v[m].splitted_index {
            v.len() - 1
        } else {
            m
        }
    }
}

/// Stable sort by split index: the first part with the least index, then the rest sorted.
pub open spec fn sort_parts(v: Seq<DepView>) -> Seq<DepView>
    decreases v.len(),
{
    if v.len() == 0 {
        seq![]
    } else {
        let m0 = min_split_position(v);
        let m = if 0 <= m0 < v.len() { m0 } else { 0 };
        seq![v[m]] + sort_parts(v.subrange(0, m) + v.subrange(m + 1, v.len() as int))
    }
}

/// The bytes of the parts, one after another.
pub open spec fn concat_parts(v: Seq<DepView>) -> Seq<u8>
    decreases v.len(),
{
    if v.len() == 0 {
        seq![]
    } else {
        concat_parts(v.drop_last()) + v.last().bytes
    }
}

/// The bytes of dependency `i` of operation `s`: its distinct parts in split order.
pub open spec fn dep_bytes(v: Seq<DepView>, s: u64, i: u32) -> Seq<u8> {
    concat_parts(sort_parts(unique_parts(parts_with(v, s, i))))
}

/// The factory dependencies of operation `s`.
pub open spec fn assembled_deps(v: Seq<DepView>, s: u64) -> Seq<Seq<u8>> {
    Seq::new(dep_count(v, s), |i: int| dep_bytes(v, s, i as u32))
}

/// The byte sequences held by a list of byte vectors.
pub open spec fn bytes_lists(v: Seq<Vec<u8>>) -> Seq<Seq<u8>> {
    v.map_values(|b: Vec<u8>| b@)
}

// ---------------------------------------------------------------------------
// Operations

/// Keeps the first operation of each serial id.
pub open spec fn unique_ops(v: Seq<PriorityOp>) -> Seq<PriorityOp>
    decreases v.len(),
{
    if v.len() == 0 {
        seq![]
    } else {
        let u = unique_ops(v.drop_last());
        if exists|j: int| 0 <= j < v.len() - 1 && v[j].serial_id == v.last().serial_id {
            u
        } else {
            u.push(v.last())
        }
    }
}

/// Position of the first operation with the least serial id.
pub open spec fn min_serial_position(v: Seq<PriorityOp>) -> int
    decreases v.len(),
{
    if v.len() <= 1 {
        0
    } else {
        let m = min_serial_position(v.drop_last());
        if 0 <= m < v.len() - 1 && v.last().serial_id < v[m].serial_id {
            v.len() - 1
        } else {
            m
        }
    }
}

/// Stable sort by serial id.
pub open spec fn sort_ops(v: Seq<PriorityOp>) -> Seq<PriorityOp>
    decreases v.len(),
{
    if v.len() == 0 {
        seq![]
    } else {
        let m0 = min_serial_position(v);
        let m = if 0 <= m0 < v.len() { m0 } else { 0 };
        seq![v[m]] + sort_ops(v.subrange(0, m) + v.subrange(m + 1, v.len() as int))
    }
}

/// The received operations without repeats, in serial order.
pub open spec fn received_ops(v: Seq<PriorityOp>) -> Seq<PriorityOp> {
    sort_ops(unique_ops(v))
}

/// The serial ids run without a gap from the first to the last.
pub open spec fn contiguous(s: Seq<PriorityOp>) -> bool {
    s.len() > 0 ==> s.last().serial_id - s[0].serial_id + 1 == s.len()
}

/// How many leading operations come before serial id `next`.
pub open spec fn skip_below(s: Seq<PriorityOp>, next: u64) -> nat
    decreases s.len(),
{
    if s.len() == 0 {
        0
    } else if s[0].serial_id < next {
        1 + skip_below(s.drop_first(), next)
    } else {
        0
    }
}

/// The operations from the first one at or after `next` on.
pub open spec fn ops_from(s: Seq<PriorityOp>, next: u64) -> Seq<PriorityOp> {
    s.subrange(skip_below(s, next) as int, s.len() as int)
}

/// `x` is one of the operations of `s`.
pub open spec fn op_in(s: Seq<PriorityOp>, x: PriorityOp) -> bool {
    exists|j: int| 0 <= j < s.len() && s[j] == x
}

/// Some operation of `s` has serial id `id`.
pub open spec fn id_in(s: Seq<PriorityOp>, id: u64) -> bool {
    exists|j: int| 0 <= j < s.len() && s[j].serial_id == id
}

/// The serial ids never decrease.
pub open spec fn ids_sorted(s: Seq<PriorityOp>) -> bool {
    forall|i: int, k: int| 0 <= i <= k < s.len() ==> s[i].serial_id <= s[k].serial_id
}

/// No serial id occurs twice.
pub open spec fn ids_distinct(s: Seq<PriorityOp>) -> bool {
    forall|i: int, k: int| 0 <= i < k < s.len() ==> s[i].serial_id != s[k].serial_id
}

/// The serial ids strictly increase.
pub open spec fn ids_increasing(s: Seq<PriorityOp>) -> bool {
    forall|i: int, k: int| 0 <= i < k < s.len() ==> s[i].serial_id < s[k].serial_id
}

proof fn lemma_min_serial_position(v: Seq<PriorityOp>)
    requires
        v.len() > 0,
    ensures
        0 <= min_serial_position(v) < v.len(),
        forall|j: int| 0 <= j < v.len() ==> v[min_serial_position(v)].serial_id <= (#[trigger] v[j]).serial_id,
    decreases v.len(),
{
    if v.len() > 1 {
        let d = v.drop_last();
        lemma_min_serial_position(d);
        let m = min_serial_position(d);
        assert(d[m] == v[m]);
        assert forall|j: int| 0 <= j < v.len() implies v[min_serial_position(v)].serial_id <= (#[trigger] v[j]).serial_id by {
            if j < v.len() - 1 {
                assert(d[j] == v[j]);
            }
        }
    }
}

proof fn lemma_sort_ops(v: Seq<PriorityOp>)
    ensures
        sort_ops(v).len() == v.len(),
        forall|i: int| 0 <= i < v.len() ==> op_in(v, #[trigger] sort_ops(v)[i]),
        forall|j: int| 0 <= j < v.len() ==> op_in(sort_ops(v), #[trigger] v[j]),
        ids_sorted(sort_ops(v)),
        ids_distinct(v) ==> ids_distinct(sort_ops(v)),
    decreases v.len(),
{
    if v.len() > 0 {
        lemma_min_serial_position(v);
        let m = min_serial_position(v);
        let w = v.subrange(0, m) + v.subrange(m + 1, v.len() as int);
        assert(w.len() == v.len() - 1);
        assert forall|i: int| 0 <= i < w.len() implies #[trigger] w[i] == (if i < m { v[i] } else { v[i + 1] }) by {}
        lemma_sort_ops(w);
        let r = sort_ops(v);
        let rw = sort_ops(w);
        assert(r =~= seq![v[m]] + rw);
        assert forall|i: int| 0 <= i < v.len() implies op_in(v, #[trigger] r[i]) by {
            if i == 0 {
                assert(r[0] == v[m]);
            } else {
                assert(r[i] == rw[i - 1]);
                assert(op_in(w, rw[i - 1]));
                let jw = choose|jw: int| 0 <= jw < w.len() && w[jw] == rw[i - 1];
                if jw < m {
                    assert(v[jw] == r[i]);
                } else {
                    assert(v[jw + 1] == r[i]);
                }
            }
        }
        assert forall|j: int| 0 <= j < v.len() implies op_in(r, #[trigger] v[j]) by {
            if j == m {
                assert(r[0] == v[j]);
            } else {
                let jw = if j < m { j } else { j - 1 };
                assert(w[jw] == v[j]);
                assert(op_in(rw, w[jw]));
                let i = choose|i: int| 0 <= i < rw.len() && rw[i] == w[jw];
                assert(r[i + 1] == v[j]);
            }
        }
        assert forall|i: int, k: int| 0 <= i <= k < r.len() implies r[i].serial_id <= r[k].serial_id by {
            if i == 0 {
                if k > 0 {
                    assert(r[k] == rw[k - 1]);
                    assert(op_in(w, rw[k - 1]));
                    let jw = choose|jw: int| 0 <= jw < w.len() && w[jw] == rw[k - 1];
                    if jw < m {
                        assert(v[m].serial_id <= v[jw].serial_id);
                    } else {
                        assert(v[m].serial_id <= v[jw + 1].serial_id);
                    }
                }
            } else {
                assert(r[i] == rw[i - 1]);
                assert(r[k] == rw[k - 1]);
            }
        }
        if ids_distinct(v) {
            assert forall|i: int, k: int| 0 <= i < k < w.len() implies w[i].serial_id != w[k].serial_id by {
                let vi = if i < m { i } else { i + 1 };
                let vk = if k < m { k } else { k + 1 };
                assert(w[i] == v[vi]);
                assert(w[k] == v[vk]);
            }
            assert forall|i: int, k: int| 0 <= i < k < r.len() implies r[i].serial_id != r[k].serial_id by {
                if i == 0 {
                    assert(r[k] == rw[k - 1]);
                    assert(op_in(w, rw[k - 1]));
                    let jw = choose|jw: int| 0 <= jw < w.len() && w[jw] == rw[k - 1];
                    let vj = if jw < m { jw } else { jw + 1 };
                    assert(v[vj] == r[k]);
                    if vj < m {
                        assert(v[vj].serial_id != v[m].serial_id);
                    } else {
                        assert(v[m].serial_id != v[vj].serial_id);
                    }
                } else {
                    assert(r[i] == rw[i - 1]);
                    assert(r[k] == rw[k - 1]);
                }
            }
        }
    }
}

proof fn lemma_unique_ops(v: Seq<PriorityOp>)
    ensures
        forall|i: int| 0 <= i < unique_ops(v).len() ==> op_in(v, #[trigger] unique_ops(v)[i]),
        forall|j: int| 0 <= j < v.len() ==> id_in(unique_ops(v), (#[trigger] v[j]).serial_id),
        ids_distinct(unique_ops(v)),
    decreases v.len(),
{
    if v.len() > 0 {
        let d = v.drop_last();
        lemma_unique_ops(d);
        let ud = unique_ops(d);
        let u = unique_ops(v);
        let last = v.last();
        let seen = exists|j: int| 0 <= j < v.len() - 1 && v[j].serial_id == last.serial_id;
        assert(u == (if seen { ud } else { ud.push(last) }));
        assert forall|i: int| 0 <= i < u.len() implies op_in(v, #[trigger] u[i]) by {
            if i < ud.len() {
                assert(u[i] == ud[i]);
                assert(op_in(d, ud[i]));
                let j = choose|j: int| 0 <= j < d.len() && d[j] == ud[i];
                assert(v[j] == u[i]);
            } else {
                assert(u[i] == last);
                assert(v[v.len() - 1] == last);
            }
        }
        assert forall|j: int| 0 <= j < v.len() implies id_in(u, (#[trigger] v[j]).serial_id) by {
            if j < v.len() - 1 {
                assert(d[j] == v[j]);
                assert(id_in(ud, d[j].serial_id));
                let i = choose|i: int| 0 <= i < ud.len() && ud[i].serial_id == d[j].serial_id;
                assert(u[i] == ud[i]);
            } else if seen {
                let j2 = choose|j2: int| 0 <= j2 < v.len() - 1 && v[j2].serial_id == last.serial_id;
                assert(d[j2] == v[j2]);
                assert(id_in(ud, d[j2].serial_id));
                let i = choose|i: int| 0 <= i < ud.len() && ud[i].serial_id == d[j2].serial_id;
                assert(u[i] == ud[i]);
            } else {
                assert(u[u.len() - 1] == last);
            }
        }
        if !seen {
            assert forall|i: int, k: int| 0 <= i < k < u.len() implies u[i].serial_id != u[k].serial_id by {
                assert(u[i] == ud[i]);
                if k < ud.len() {
                    assert(u[k] == ud[k]);
                } else {
                    assert(u[k] == last);
                    assert(op_in(d, ud[i]));
                    let j = choose|j: int| 0 <= j < d.len() && d[j] == ud[i];
                    assert(v[j] == d[j]);
                }
            }
        }
    }
}

/// The received operations come out without repeats, in strictly increasing serial
/// order; each of them is one of the received operations, and every serial id received
/// is among them.
pub proof fn law_received_ops_in_order(ops: Seq<PriorityOp>)
    ensures
        ids_increasing(received_ops(ops)),
        forall|i: int| 0 <= i < received_ops(ops).len() ==> op_in(ops, #[trigger] received_ops(ops)[i]),
        forall|j: int| 0 <= j < ops.len() ==> id_in(received_ops(ops), (#[trigger] ops[j]).serial_id),
{
    let u = unique_ops(ops);
    let r = received_ops(ops);
    lemma_unique_ops(ops);
    lemma_sort_ops(u);
    assert forall|i: int, k: int| 0 <= i < k < r.len() implies r[i].serial_id < r[k].serial_id by {
        assert(r[i].serial_id <= r[k].serial_id);
        assert(r[i].serial_id != r[k].serial_id);
    }
    assert forall|i: int| 0 <= i < r.len() implies op_in(ops, #[trigger] r[i]) by {
        assert(op_in(u, r[i]));
        let j = choose|j: int| 0 <= j < u.len() && u[j] == r[i];
        assert(op_in(ops, u[j]));
    }
    assert forall|j: int| 0 <= j < ops.len() implies id_in(r, (#[trigger] ops[j]).serial_id) by {
        assert(id_in(u, ops[j].serial_id));
        let i = choose|i: int| 0 <= i < u.len() && u[i].serial_id == ops[j].serial_id;
        assert(op_in(r, u[i]));
        let t = choose|t: int| 0 <= t < r.len() && r[t] == u[i];
    }
}

proof fn lemma_increasing_spread(s: Seq<PriorityOp>, i: int, k: int)
    requires
        ids_increasing(s),
        0 <= i <= k < s.len(),
    ensures
        s[k].serial_id - s[i].serial_id >= k - i,
    decreases k - i,
{
    if k > i {
        lemma_increasing_spread(s, i, k - 1);
        assert(s[k - 1].serial_id < s[k].serial_id);
    }
}

/// Strictly increasing serial ids without a gap are the first one plus the position.
proof fn lemma_contiguous_values(s: Seq<PriorityOp>)
    requires
        ids_increasing(s),
        contiguous(s),
        s.len() > 0,
    ensures
        forall|i: int| 0 <= i < s.len() ==> (#[trigger] s[i]).serial_id == s[0].serial_id + i,
{
    assert forall|i: int| 0 <= i < s.len() implies (#[trigger] s[i]).serial_id == s[0].serial_id + i by {
        lemma_increasing_spread(s, 0, i);
        lemma_increasing_spread(s, i, s.len() - 1);
    }
}

proof fn lemma_skip_bound(s: Seq<PriorityOp>, next: u64)
    ensures
        skip_below(s, next) <= s.len(),
    decreases s.len(),
{
    if s.len() > 0 {
        lemma_skip_bound(s.drop_first(), next);
    }
}

proof fn lemma_skip_all(s: Seq<PriorityOp>, next: u64)
    requires
        forall|i: int| 0 <= i < s.len() ==> (#[trigger] s[i]).serial_id < next,
    ensures
        skip_below(s, next) == s.len(),
    decreases s.len(),
{
    if s.len() > 0 {
        let t = s.drop_first();
        assert forall|i: int| 0 <= i < t.len() implies (#[trigger] t[i]).serial_id < next by {
            assert(t[i] == s[i + 1]);
        }
        lemma_skip_all(t, next);
    }
}

/// Taking in the same operations again after they were taken in adds nothing: once a
/// pass over `ops` succeeded from `next`, the operations that are new from the moved
/// expected id on are none.
pub proof fn law_replay_adds_nothing(ops: Seq<PriorityOp>, next: u64)
    requires
        contiguous(received_ops(ops)),
        ({
            let fresh = ops_from(received_ops(ops), next);
            fresh.len() > 0 ==> fresh[0].serial_id == next && fresh.last().serial_id < u64::MAX
        }),
    ensures
        ({
            let fresh = ops_from(received_ops(ops), next);
            let moved: u64 = if fresh.len() > 0 { (fresh.last().serial_id + 1) as u64 } else { next };
            ops_from(received_ops(ops), moved).len() == 0
        }),
{
    let g = received_ops(ops);
    let fresh = ops_from(g, next);
    law_received_ops_in_order(ops);
    if fresh.len() > 0 {
        let moved = (fresh.last().serial_id + 1) as u64;
        lemma_skip_bound(g, next);
        assert(fresh.last() == g[g.len() - 1]);
        assert forall|i: int| 0 <= i < g.len() implies (#[trigger] g[i]).serial_id < moved by {
            if i < g.len() - 1 {
                assert(g[i].serial_id < g[g.len() - 1].serial_id);
            }
        }
        lemma_skip_all(g, moved);
    }
}

/// `n` is `op` with the dependencies assembled from `v`.
pub open spec fn completes(n: NewPriorityOp, op: PriorityOp, v: Seq<DepView>) -> bool {
    &&& n.serial_id == op.serial_id
    &&& n.eth_block == op.eth_block
    &&& n.source_index == op.source_index
    &&& bytes_lists(n.factory_deps@) == assembled_deps(v, op.serial_id)
}


/// The parts of operation `s`, in arrival order.
pub open spec fn parts_of(v: Seq<DepView>, s: u64) -> Seq<DepView>
    decreases v.len(),
{
    if v.len() == 0 {
        seq![]
    } else {
        let r = parts_of(v.drop_last(), s);
        if v.last().serial_id == s {
            r.push(v.last())
        } else {
            r
        }
    }
}

/// The parts with dependency index `i`, in arrival order.
pub open spec fn parts_at(v: Seq<DepView>, i: u32) -> Seq<DepView>
    decreases v.len(),
{
    if v.len() == 0 {
        seq![]
    } else {
        let r = parts_at(v.drop_last(), i);
        if v.last().dep_index == i {
            r.push(v.last())
        } else {
            r
        }
    }
}

/// The indices below `c`.
pub open spec fn indices_below(c: nat) -> Set<u32> {
    Set::new(|i: u32| (i as nat) < c)
}

proof fn lemma_indices_below_len(c: nat)
    requires
        c <= u32::MAX + 1,
    ensures
        indices_below(c).finite(),
        indices_below(c).len() == c,
    decreases c,
{
    if c == 0 {
        assert(indices_below(0) =~= Set::<u32>::empty());
    } else {
        let p = (c - 1) as nat;
        lemma_indices_below_len(p);
        assert(indices_below(c) =~= indices_below(p).insert(p as u32));
        assert(!indices_below(p).contains(p as u32));
    }
}

proof fn lemma_parts_at_of(v: Seq<DepView>, s: u64, i: u32)
    ensures
        parts_at(parts_of(v, s), i) == parts_with(v, s, i),
    decreases v.len(),
{
    if v.len() > 0 {
        lemma_parts_at_of(v.drop_last(), s, i);
        let r = parts_of(v.drop_last(), s);
        if v.last().serial_id == s {
            assert(r.push(v.last()).drop_last() =~= r);
        }
    }
}

proof fn lemma_parts_with_present(v: Seq<DepView>, s: u64, i: u32)
    ensures
        parts_with(v, s, i).len() > 0 <==> present(v, s, i),
        parts_with(v, s, i).len() > 0 ==> i < dep_count(v, s),
    decreases v.len(),
{
    if v.len() > 0 {
        let d = v.drop_last();
        lemma_parts_with_present(d, s, i);
        if present(d, s, i) {
            let m = choose|m: int| 0 <= m < d.len() && d[m].serial_id == s && d[m].dep_index == i;
            assert(v[m] == d[m]);
        }
        if present(v, s, i) && !(v.last().serial_id == s && v.last().dep_index == i) {
            let m = choose|m: int| 0 <= m < v.len() && v[m].serial_id == s && v[m].dep_index == i;
            assert(m != v.len() - 1);
            assert(d[m] == v[m]);
        }
        if v.last().serial_id == s && v.last().dep_index == i {
            assert(v[v.len() - 1].serial_id == s);
        }
    }
}

proof fn lemma_top_present(v: Seq<DepView>, s: u64)
    ensures
        dep_count(v, s) > 0 ==> present(v, s, (dep_count(v, s) - 1) as u32),
        parts_of(v, s).len() == 0 ==> dep_count(v, s) == 0,
    decreases v.len(),
{
    if v.len() > 0 {
        let d = v.drop_last();
        lemma_top_present(d, s);
        if dep_count(v, s) > 0 && dep_count(v, s) == dep_count(d, s) {
            let j = (dep_count(d, s) - 1) as u32;
            let m = choose|m: int| 0 <= m < d.len() && d[m].serial_id == s && d[m].dep_index == j;
            assert(v[m] == d[m]);
        }
        if dep_count(v, s) > 0 && dep_count(v, s) != dep_count(d, s) {
            assert(v[v.len() - 1].serial_id == s);
        }
    }
}

/// Under dense indices, the dependency indices of operation `s` that have parts are
/// exactly those below its dependency count.
proof fn lemma_dep_groups(v: Seq<DepView>, s: u64)
    requires
        deps_dense(v),
    ensures
        forall|i: u32| #[trigger] parts_at(parts_of(v, s), i).len() > 0 <==> (i as nat) < dep_count(v, s),
        forall|i: u32| #[trigger] parts_at(parts_of(v, s), i) == parts_with(v, s, i),
        parts_of(v, s).len() == 0 ==> dep_count(v, s) == 0,
{
    lemma_top_present(v, s);
    assert forall|i: u32| #[trigger] parts_at(parts_of(v, s), i) == parts_with(v, s, i) by {
        lemma_parts_at_of(v, s, i);
    }
    assert forall|i: u32| #[trigger] parts_at(parts_of(v, s), i).len() > 0 <==> (i as nat) < dep_count(v, s) by {
        lemma_parts_at_of(v, s, i);
        lemma_parts_with_present(v, s, i);
        if (i as nat) < dep_count(v, s) {
            lemma_dep_count_bound(v, s);
            let top = (dep_count(v, s) - 1) as u32;
            assert(present(v, s, top));
            let m = choose|m: int| 0 <= m < v.len() && v[m].serial_id == s && v[m].dep_index == top;
            if i < top {
                assert(present(v, v[m].serial_id, i));
            }
            assert(present(v, s, i));
        }
    }
}

// ---------------------------------------------------------------------------
// Calls into itertools

/// Calls itertools' `unique_by` on the parts, keyed by split index. It keeps, in order,
/// the first part of each key (the source inserts each key into a set as items pass and
/// yields an item only when its key is new).
#[verifier::external_body]
fn unique_by_splitted_index(parts: Vec<L1FactoryDep>) -> (r: Vec<L1FactoryDep>)
    ensures
        parts_view(r@) == unique_parts(parts_view(parts@)),
{
    parts.into_iter().unique_by(|d| d.splitted_index).collect()
}

/// Calls itertools' `sorted_by_key` on the parts, keyed by split index. The source
/// collects into a vector and calls std's stable `sort_by_key`, so the result is the
/// stable sort: the first least element, then the rest sorted.
#[verifier::external_body]
fn sorted_by_splitted_index(parts: Vec<L1FactoryDep>) -> (r: Vec<L1FactoryDep>)
    ensures
        parts_view(r@) == sort_parts(parts_view(parts@)),
{
    parts.into_iter().sorted_by_key(|d| d.splitted_index).collect()
}

/// Calls itertools' `unique_by` on the operations, keyed by serial id: the first
/// operation of each serial id, in order.
#[verifier::external_body]
fn unique_by_serial_id(ops: Vec<PriorityOp>) -> (r: Vec<PriorityOp>)
    ensures
        r@ == unique_ops(ops@),
{
    ops.into_iter().unique_by(|op| op.serial_id).collect()
}

/// Calls itertools' `sorted_by_key` on the operations, keyed by serial id (a stable sort).
#[verifier::external_body]
fn sorted_by_serial_id(ops: Vec<PriorityOp>) -> (r: Vec<PriorityOp>)
    ensures
        r@ == sort_ops(ops@),
{
    ops.into_iter().sorted_by_key(|op| op.serial_id).collect()
}

/// Calls itertools' `into_group_map_by` on the parts, keyed by serial id. The source
/// pushes each item, in order, onto the vector of its key in a hash map, so each key
/// that occurs maps to its items in arrival order.
#[verifier::external_body]
fn group_by_serial_id(parts: Vec<L1FactoryDep>) -> (r: HashMap<u64, Vec<L1FactoryDep>>)
    ensures
        forall|s: u64| #[trigger] r@.contains_key(s) <==> parts_of(parts_view(parts@), s).len() > 0,
        forall|s: u64| #[trigger] r@.contains_key(s) ==> parts_view(r@[s]@) == parts_of(parts_view(parts@), s),
{
    parts.into_iter().into_group_map_by(|d| d.serial_id)
}

/// Calls itertools' `into_group_map_by` on the parts, keyed by dependency index: each
/// index that occurs maps to its parts in arrival order.
#[verifier::external_body]
fn group_by_dep_index(parts: Vec<L1FactoryDep>) -> (r: HashMap<u32, Vec<L1FactoryDep>>)
    ensures
        forall|i: u32| #[trigger] r@.contains_key(i) <==> parts_at(parts_view(parts@), i).len() > 0,
        forall|i: u32| #[trigger] r@.contains_key(i) ==> parts_view(r@[i]@) == parts_at(parts_view(parts@), i),
{
    parts.into_iter().into_group_map_by(|d| d.dep_index)
}

// ---------------------------------------------------------------------------
// Dependency assembly

proof fn lemma_parts_view_take(v: Seq<L1FactoryDep>, k: int)
    requires
        0 <= k < v.len(),
    ensures
        parts_view(v).take(k + 1).drop_last() == parts_view(v).take(k),
        parts_view(v).take(k + 1).last() == v[k]@,
        parts_view(v).len() == v.len(),
{
    assert(parts_view(v).take(k + 1).drop_last() =~= parts_view(v).take(k));
}

/// Whether some part of operation `s` has dependency index `j`.
pub fn has_dep_index(deps: &Vec<L1FactoryDep>, s: u64, j: u32) -> (r: bool)
    ensures
        r == present(parts_view(deps@), s, j),
{
    let ghost v = parts_view(deps@);
    let n = deps.len();
    let mut k: usize = 0;
    while k < n
        invariant
            n == deps@.len(),
            v == parts_view(deps@),
            k <= n,
            forall|m: int| 0 <= m < k ==> !(v[m].serial_id == s && v[m].dep_index == j),
        decreases n - k,
    {
        if deps[k].serial_id == s && deps[k].dep_index == j {
            assert(v[k as int].serial_id == s && v[k as int].dep_index == j);
            return true;
        }
        k = k + 1;
    }
    false
}

/// Whether the dependency indices of every operation run from 0 without holes.
pub fn deps_are_dense(deps: &Vec<L1FactoryDep>) -> (r: bool)
    ensures
        r == deps_dense(parts_view(deps@)),
{
    let ghost v = parts_view(deps@);
    let n = deps.len();
    let mut k: usize = 0;
    while k < n
        invariant
            n == deps@.len(),
            v == parts_view(deps@),
            v.len() == n,
            k <= n,
            forall|k2: int, j: u32|
                0 <= k2 < k && j < v[k2].dep_index ==> #[trigger] present(v, v[k2].serial_id, j),
        decreases n - k,
    {
        let s = deps[k].serial_id;
        let idx = deps[k].dep_index;
        let mut j: u32 = 0;
        while j < idx
            invariant
                n == deps@.len(),
                v == parts_view(deps@),
                v.len() == n,
                k < n,
                s == v[k as int].serial_id,
                idx == v[k as int].dep_index,
                j <= idx,
                forall|j2: u32| j2 < j ==> #[trigger] present(v, s, j2),
            decreases idx - j,
        {
            if !has_dep_index(deps, s, j) {
                assert(!present(v, v[k as int].serial_id, j));
                return false;
            }
            j = j + 1;
        }
        assert forall|k2: int, j2: u32|
            0 <= k2 < k + 1 && j2 < v[k2].dep_index implies #[trigger] present(v, v[k2].serial_id, j2) by {
            if k2 == k {
                assert(present(v, s, j2));
            }
        }
        k = k + 1;
    }
    true
}

proof fn lemma_dep_count_bound(v: Seq<DepView>, s: u64)
    ensures
        dep_count(v, s) <= u32::MAX + 1,
    decreases v.len(),
{
    if v.len() > 0 {
        lemma_dep_count_bound(v.drop_last(), s);
    }
}

/// The bytes of the parts, one after another.
pub fn concat_bytes(parts: &Vec<L1FactoryDep>) -> (r: Vec<u8>)
    ensures
        r@ == concat_parts(parts_view(parts@)),
{
    let ghost v = parts_view(parts@);
    let n = parts.len();
    let mut out: Vec<u8> = Vec::new();
    let mut k: usize = 0;
    while k < n
        invariant
            n == parts@.len(),
            v == parts_view(parts@),
            k <= n,
            out@ == concat_parts(v.take(k as int)),
        decreases n - k,
    {
        proof {
            lemma_parts_view_take(parts@, k as int);
        }
        let b = &parts[k].bytes;
        let m = b.len();
        let ghost before = out@;
        let mut t: usize = 0;
        while t < m
            invariant
                m == b@.len(),
                t <= m,
                out@ == before + b@.take(t as int),
            decreases m - t,
        {
            out.push(b[t]);
            assert(b@.take(t as int + 1) =~= b@.take(t as int).push(b@[t as int]));
            t = t + 1;
        }
        assert(b@.take(m as int) =~= b@);
        k = k + 1;
    }
    assert(v.take(n as int) =~= v);
    out
}

/// The factory dependencies of operation `s`, given its parts in arrival order, each
/// dependency reassembled from its distinct parts in split order.
fn assemble_deps(group: Vec<L1FactoryDep>, Ghost(v): Ghost<Seq<DepView>>, s: u64) -> (r: Vec<Vec<u8>>)
    requires
        parts_view(group@) == parts_of(v, s),
        deps_dense(v),
    ensures
        bytes_lists(r@) == assembled_deps(v, s),
{
    broadcast use vstd::std_specs::hash::group_hash_axioms;
    let mut by_dep = group_by_dep_index(group);
    let c = by_dep.len();
    proof {
        lemma_dep_count_bound(v, s);
        lemma_dep_groups(v, s);
        assert(by_dep@.dom() =~= indices_below(dep_count(v, s)));
        lemma_indices_below_len(dep_count(v, s));
    }
    let mut out: Vec<Vec<u8>> = Vec::new();
    let mut i: usize = 0;
    while i < c
        invariant
            c == dep_count(v, s),
            c <= u32::MAX + 1,
            i <= c,
            out@.len() == i,
            forall|t: int| 0 <= t < i ==> #[trigger] out@[t]@ == dep_bytes(v, s, t as u32),
            forall|j: u32| i <= j < c ==> #[trigger] by_dep@.contains_key(j)
                && parts_view(by_dep@[j]@) == parts_with(v, s, j),
        decreases c - i,
    {
        let key = i as u32;
        assert(by_dep@.contains_key(key));
        let parts = match by_dep.remove(&key) {
            Some(p) => p,
            None => Vec::new(),
        };
        let distinct = unique_by_splitted_index(parts);
        let ordered = sorted_by_splitted_index(distinct);
        let bytes = concat_bytes(&ordered);
        out.push(bytes);
        i = i + 1;
    }
    assert(bytes_lists(out@) =~= assembled_deps(v, s));
    out
}

// ---------------------------------------------------------------------------
// The processor

/// The events of a block range can be taken in from expected id `next`: dense
/// dependency indices, received serial ids without a gap, the first new operation the
/// expected one, and a successor for the last new serial id.
pub open spec fn events_acceptable(ops: Seq<PriorityOp>, v: Seq<DepView>, next: u64) -> bool {
    let got = received_ops(ops);
    let fresh = ops_from(got, next);
    &&& deps_dense(v)
    &&& contiguous(got)
    &&& fresh.len() > 0 ==> fresh[0].serial_id == next && fresh.last().serial_id != u64::MAX
}

/// A copy of the operations.
fn copy_ops(ops: &Vec<PriorityOp>) -> (r: Vec<PriorityOp>)
    ensures
        r@ == ops@,
{
    let n = ops.len();
    let mut out: Vec<PriorityOp> = Vec::new();
    let mut k: usize = 0;
    while k < n
        invariant
            n == ops@.len(),
            k <= n,
            out@ == ops@.take(k as int),
        decreases n - k,
    {
        out.push(ops[k]);
        assert(ops@.take(k as int + 1) =~= ops@.take(k as int).push(ops@[k as int]));
        k = k + 1;
    }
    assert(ops@.take(n as int) =~= ops@);
    out
}

/// How many leading operations come before serial id `next`.
fn skip_count(got: &Vec<PriorityOp>, next: u64) -> (k: usize)
    ensures
        k == skip_below(got@, next),
        k <= got@.len(),
{
    let ghost g = got@;
    let n = got.len();
    let mut k: usize = 0;
    assert(g.subrange(0, n as int) =~= g);
    while k < n && got[k].serial_id < next
        invariant
            n == g.len(),
            g == got@,
            k <= n,
            skip_below(g, next) == k + skip_below(g.subrange(k as int, n as int), next),
        decreases n - k,
    {
        proof {
            lemma_skip_step(g, k as int, next);
        }
        k = k + 1;
    }
    proof {
        if k == n {
            assert(g.subrange(k as int, n as int).len() == 0);
        } else {
            assert(g.subrange(k as int, n as int)[0] == g[k as int]);
        }
    }
    k
}

/// Takes new priority operations in, in serial order, without repeats.
#[derive(Debug)]
pub struct PriorityOpsEventProcessor {
    /// Serial id of the next operation not taken in yet.
    pub next_expected_priority_id: u64,
    /// First topic of `NewPriorityRequest` events.
    pub new_priority_request_signature: H256,
    /// First topic of `NewPriorityRequestFactoryDeps` events.
    pub new_priority_request_factory_deps_signature: H256,
}

proof fn lemma_skip_step(s: Seq<PriorityOp>, k: int, next: u64)
    requires
        0 <= k < s.len(),
        s[k].serial_id < next,
    ensures
        skip_below(s.subrange(k, s.len() as int), next)
            == 1 + skip_below(s.subrange(k + 1, s.len() as int), next),
{
    assert(s.subrange(k, s.len() as int).drop_first() =~= s.subrange(k + 1, s.len() as int));
}

impl PriorityOpsEventProcessor {
    /// A processor expecting `next_expected_priority_id` next, recognising events by the
    /// two event signatures.
    pub fn new(
        next_expected_priority_id: u64,
        new_priority_request_signature: H256,
        new_priority_request_factory_deps_signature: H256,
    ) -> (r: Self)
        ensures
            r.next_expected_priority_id == next_expected_priority_id,
            r.new_priority_request_signature == new_priority_request_signature,
            r.new_priority_request_factory_deps_signature
                == new_priority_request_factory_deps_signature,
    {
        PriorityOpsEventProcessor {
            next_expected_priority_id,
            new_priority_request_signature,
            new_priority_request_factory_deps_signature,
        }
    }

    /// The topics of the events this processor reads.
    pub fn relevant_topic(&self) -> (r: Vec<H256>)
        ensures
            r@ == seq![
                self.new_priority_request_signature,
                self.new_priority_request_factory_deps_signature,
            ],
    {
        let mut v: Vec<H256> = Vec::new();
        v.push(self.new_priority_request_signature);
        v.push(self.new_priority_request_factory_deps_signature);
        v
    }

    /// What an event with first topic `topic` carries.
    pub fn classify_event(&self, topic: &H256) -> (k: EventKind)
        ensures
            k == (if topic@ == self.new_priority_request_signature@ {
                EventKind::PriorityRequest
            } else if topic@ == self.new_priority_request_factory_deps_signature@ {
                EventKind::FactoryDeps
            } else {
                EventKind::Other
            }),
    {
        if bytes_eq(topic, &self.new_priority_request_signature) {
            EventKind::PriorityRequest
        } else if bytes_eq(topic, &self.new_priority_request_factory_deps_signature) {
            EventKind::FactoryDeps
        } else {
            EventKind::Other
        }
    }

    /// Checks that the operations and dependency parts of a block range can be taken in:
    /// the dependency indices of each operation run from 0 without holes, the received
    /// serial ids have no gap, the first new operation is the expected one, and the last
    /// new serial id has a successor. The error names the first check that fails.
    pub fn check_events(&self, ops: &Vec<PriorityOp>, deps: &Vec<L1FactoryDep>) -> (r: Result<(), PriorityOpsError>)
        ensures
            ({
                let v = parts_view(deps@);
                let got = received_ops(ops@);
                let fresh = ops_from(got, self.next_expected_priority_id);
                &&& (r == Err::<(), PriorityOpsError>(PriorityOpsError::DepIndexOutOfRange))
                    <==> !deps_dense(v)
                &&& (r == Err::<(), PriorityOpsError>(PriorityOpsError::Gap))
                    <==> (deps_dense(v) && !contiguous(got))
                &&& (r == Err::<(), PriorityOpsError>(PriorityOpsError::SerialIdMismatch))
                    <==> (deps_dense(v) && contiguous(got) && fresh.len() > 0
                        && fresh[0].serial_id != self.next_expected_priority_id)
                &&& (r == Err::<(), PriorityOpsError>(PriorityOpsError::SerialIdOverflow))
                    <==> (deps_dense(v) && contiguous(got) && fresh.len() > 0
                        && fresh[0].serial_id == self.next_expected_priority_id
                        && fresh.last().serial_id == u64::MAX)
                &&& r is Ok <==> events_acceptable(ops@, v, self.next_expected_priority_id)
            }),
    {
        if !deps_are_dense(deps) {
            return Err(PriorityOpsError::DepIndexOutOfRange);
        }
        let distinct = unique_by_serial_id(copy_ops(ops));
        let got = sorted_by_serial_id(distinct);
        let ghost g = got@;
        let n = got.len();
        if n == 0 {
            proof {
                assert(skip_below(g, self.next_expected_priority_id) == 0);
            }
            return Ok(());
        }
        let first = got[0].serial_id;
        let last = got[n - 1].serial_id;
        if last < first || (last - first) as u128 + 1 != n as u128 {
            return Err(PriorityOpsError::Gap);
        }
        let next = self.next_expected_priority_id;
        let k = skip_count(&got, next);
        if k == n {
            return Ok(());
        }
        proof {
            assert(ops_from(g, next)[0] == g[k as int]);
            assert(ops_from(g, next).last() == g[n - 1]);
        }
        if got[k].serial_id != next {
            return Err(PriorityOpsError::SerialIdMismatch);
        }
        if last == u64::MAX {
            return Err(PriorityOpsError::SerialIdOverflow);
        }
        Ok(())
    }

    /// Takes in the operations and dependency parts of a block range that passed
    /// `check_events`: repeats are dropped, dependencies are reassembled, and the
    /// operations from the next expected serial id on are returned in serial order, the
    /// expected id moving past the last of them.
    pub fn process_events(&mut self, ops: Vec<PriorityOp>, deps: Vec<L1FactoryDep>) -> (n: Vec<NewPriorityOp>)
        requires
            events_acceptable(ops@, parts_view(deps@), old(self).next_expected_priority_id),
        ensures
            final(self).new_priority_request_signature == old(self).new_priority_request_signature,
            final(self).new_priority_request_factory_deps_signature
                == old(self).new_priority_request_factory_deps_signature,
            ({
                let v = parts_view(deps@);
                let fresh = ops_from(received_ops(ops@), old(self).next_expected_priority_id);
                &&& n@.len() == fresh.len()
                &&& forall|t: int| 0 <= t < n@.len() ==> #[trigger] completes(n@[t], fresh[t], v)
                &&& forall|t: int| 0 <= t < n@.len()
                    ==> (#[trigger] n@[t]).serial_id == old(self).next_expected_priority_id + t
                &&& final(self).next_expected_priority_id == old(self).next_expected_priority_id + n@.len()
                &&& final(self).next_expected_priority_id == (if fresh.len() > 0 {
                    (fresh.last().serial_id + 1) as u64
                } else {
                    old(self).next_expected_priority_id
                })
            }),
    {
        broadcast use vstd::std_specs::hash::group_hash_axioms;
        let ghost v = parts_view(deps@);
        let ghost received = ops@;
        let distinct = unique_by_serial_id(ops);
        let got = sorted_by_serial_id(distinct);
        let ghost g = got@;
        let n = got.len();
        let next = self.next_expected_priority_id;
        if n == 0 {
            proof {
                assert(skip_below(g, next) == 0);
            }
            return Vec::new();
        }
        let k = skip_count(&got, next);
        let ghost fresh = ops_from(g, next);
        if k == n {
            return Vec::new();
        }
        let last = got[n - 1].serial_id;
        proof {
            assert(fresh[0] == g[k as int]);
            assert(fresh.last() == g[n - 1]);
            law_received_ops_in_order(received);
            lemma_contiguous_values(g);
            assert forall|u: int| 0 <= u < fresh.len() implies (#[trigger] fresh[u]).serial_id == next + u by {
                assert(fresh[u] == g[k + u]);
            }
        }
        proof {
            assert(deps_dense(v));
        }
        let mut by_serial = group_by_serial_id(deps);
        let mut out: Vec<NewPriorityOp> = Vec::new();
        let mut t: usize = k;
        while t < n
            invariant
                n == g.len(),
                g == got@,
                deps_dense(v),
                k <= t <= n,
                forall|id: u64| id >= next + (t - k) ==> {
                    &&& (#[trigger] by_serial@.contains_key(id) <==> parts_of(v, id).len() > 0)
                    &&& (by_serial@.contains_key(id) ==> parts_view(by_serial@[id]@) == parts_of(v, id))
                },
                fresh == g.subrange(k as int, n as int),
                out@.len() == t - k,
                forall|u: int| 0 <= u < out@.len() ==> #[trigger] completes(out@[u], fresh[u], v),
                forall|u: int| 0 <= u < fresh.len() ==> (#[trigger] fresh[u]).serial_id == next + u,
                forall|u: int| 0 <= u < out@.len() ==> (#[trigger] out@[u]).serial_id == next + u,
            decreases n - t,
        {
            let op = got[t];
            proof {
                assert(fresh[t - k] == g[t as int]);
                assert(op.serial_id == next + (t - k));
                assert(by_serial@.contains_key(op.serial_id) <==> parts_of(v, op.serial_id).len() > 0);
            }
            let group = match by_serial.remove(&op.serial_id) {
                Some(parts) => parts,
                None => Vec::new(),
            };
            proof {
                assert(parts_view(group@) =~= parts_of(v, op.serial_id));
            }
            let factory_deps = assemble_deps(group, Ghost(v), op.serial_id);
            out.push(NewPriorityOp {
                serial_id: op.serial_id,
                eth_block: op.eth_block,
                source_index: op.source_index,
                factory_deps,
            });
            proof {
                assert(fresh[t - k] == g[t as int]);
            }
            t = t + 1;
        }
        self.next_expected_priority_id = last + 1;
        out
    }
}

} // verus!
