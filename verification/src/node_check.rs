//! Heartbeats between nodes: the checking side records who pinged when and forgets
//! nodes that went quiet; the pinging side retries with a growing pause.
use vstd::prelude::*;
use crate::types::{Address, bytes_eq};
use crate::text::str_starts_with;

verus! {

/// Seconds between pings the checking side waits for.
pub const PING_INTERVAL: u64 = 5;

/// Nanoseconds in a second.
pub const NANOS_PER_SEC: u64 = 1_000_000_000;

/// Whole seconds from `time` to `new_time` (0 if `new_time` is earlier); times are in
/// nanoseconds.
pub open spec fn spec_sub(new_time: u64, time: u64) -> u64 {
    if new_time >= time {
        ((new_time - time) / NANOS_PER_SEC as int) as u64
    } else {
        0
    }
}

/// Whole seconds from `time` to `new_time`, saturating at 0.
pub fn sub(new_time: u64, time: u64) -> (r: u64)
    ensures
        r == spec_sub(new_time, time),
{
    if new_time >= time {
        (new_time - time) / NANOS_PER_SEC
    } else {
        0
    }
}

/// The addresses of the entries, and the time of each address's entry.
pub open spec fn entries_map(s: Seq<(Address, u64)>) -> Map<Seq<u8>, u64> {
    Map::new(
        |k: Seq<u8>| exists|i: int| 0 <= i < s.len() && (#[trigger] s[i]).0@ == k,
        |k: Seq<u8>| s[choose|i: int| 0 <= i < s.len() && (#[trigger] s[i]).0@ == k].1,
    )
}

/// No address has two entries.
pub open spec fn distinct_addresses(s: Seq<(Address, u64)>) -> bool {
    forall|i: int, j: int| 0 <= i < s.len() && 0 <= j < s.len() && i != j ==> (#[trigger] s[i]).0@ != (#[trigger] s[j]).0@
}

/// The last ping time of each node that pinged, in nanoseconds.
pub struct HeartbeatRegistry {
    entries: Vec<(Address, u64)>,
}

impl View for HeartbeatRegistry {
    type V = Map<Seq<u8>, u64>;

    closed spec fn view(&self) -> Map<Seq<u8>, u64> {
        entries_map(self.entries@)
    }
}

proof fn lemma_entry_value(s: Seq<(Address, u64)>, i: int)
    requires
        distinct_addresses(s),
        0 <= i < s.len(),
    ensures
        entries_map(s).contains_key(s[i].0@),
        entries_map(s)[s[i].0@] == s[i].1,
{
    let k = s[i].0@;
    assert(entries_map(s).dom().contains(k));
    let j = choose|j: int| 0 <= j < s.len() && (#[trigger] s[j]).0@ == k;
    assert(j == i);
}

impl HeartbeatRegistry {
    #[verifier::type_invariant]
    spec fn inv(self) -> bool {
        distinct_addresses(self.entries@)
    }

    /// A registry with no entries.
    pub fn new() -> (r: Self)
        ensures
            r@ == Map::<Seq<u8>, u64>::empty(),
    {
        let r = HeartbeatRegistry { entries: Vec::new() };
        assert(r@ =~= Map::<Seq<u8>, u64>::empty());
        r
    }

    /// Records that `address` pinged at `time`.
    pub fn add_address(&mut self, address: Address, time: u64)
        ensures
            final(self)@ == old(self)@.insert(address@, time),
    {
        proof {
            use_type_invariant(&*self);
        }
        let ghost old_entries = self.entries@;
        let n = self.entries.len();
        let mut t: usize = 0;
        while t < n && !bytes_eq(&self.entries[t].0, &address)
            invariant
                n == self.entries@.len(),
                t <= n,
                forall|u: int| 0 <= u < t ==> (#[trigger] self.entries@[u]).0@ != address@,
            decreases n - t,
        {
            t = t + 1;
        }
        let mut entries = Vec::new();
        std::mem::swap(&mut entries, &mut self.entries);
        if t < n {
            entries.set(t, (address, time));
        } else {
            entries.push((address, time));
        }
        let ghost s = entries@;
        proof {
            assert(distinct_addresses(s)) by {
                assert forall|i: int, j: int| 0 <= i < s.len() && 0 <= j < s.len() && i != j implies (#[trigger] s[i]).0@ != (#[trigger] s[j]).0@ by {
                    if i != t && j != t {
                        assert(s[i] == old_entries[i] && s[j] == old_entries[j]);
                    } else if i == t {
                        if t == n {
                            assert(s[j] == old_entries[j]);
                        } else {
                            assert(s[j] == old_entries[j]);
                            assert(old_entries[t as int].0@ == address@);
                        }
                    } else {
                        assert(s[i] == old_entries[i]);
                        if t < n {
                            assert(old_entries[t as int].0@ == address@);
                        }
                    }
                }
            }
            assert forall|k: Seq<u8>| #![trigger entries_map(s).contains_key(k)]
                entries_map(s).contains_key(k) == entries_map(old_entries).insert(address@, time).contains_key(k) by {
                if entries_map(s).contains_key(k) {
                    let i = choose|i: int| 0 <= i < s.len() && (#[trigger] s[i]).0@ == k;
                    if i != t {
                        assert(old_entries[i] == s[i]);
                    }
                }
                if k != address@ && entries_map(old_entries).contains_key(k) {
                    let i = choose|i: int| 0 <= i < old_entries.len() && (#[trigger] old_entries[i]).0@ == k;
                    assert(i != t);
                    assert(s[i] == old_entries[i]);
                }
                if k == address@ {
                    assert(s[t as int].0@ == k);
                }
            }
            assert forall|k: Seq<u8>| #[trigger] entries_map(s).contains_key(k) implies
                entries_map(s)[k] == entries_map(old_entries).insert(address@, time)[k] by {
                let i = choose|i: int| 0 <= i < s.len() && (#[trigger] s[i]).0@ == k;
                lemma_entry_value(s, i);
                if i != t {
                    assert(old_entries[i] == s[i]);
                    lemma_entry_value(old_entries, i);
                }
            }
            assert(entries_map(s) =~= entries_map(old_entries).insert(address@, time));
        }
        self.entries = entries;
    }

    /// The addresses that have pinged, each once.
    pub fn get_all_addresses(&self) -> (r: Vec<Address>)
        ensures
            r@.len() == self@.dom().len(),
            forall|i: int| 0 <= i < r@.len() ==> self@.contains_key(#[trigger] r@[i]@),
            forall|k: Seq<u8>| #[trigger] self@.contains_key(k) ==> exists|i: int| 0 <= i < r@.len() && r@[i]@ == k,
            forall|i: int, j: int| 0 <= i < r@.len() && 0 <= j < r@.len() && i != j ==> (#[trigger] r@[i])@ != (#[trigger] r@[j])@,
    {
        proof {
            use_type_invariant(self);
        }
        let ghost s = self.entries@;
        let n = self.entries.len();
        let mut out: Vec<Address> = Vec::new();
        let mut k: usize = 0;
        while k < n
            invariant
                n == s.len(),
                s == self.entries@,
                k <= n,
                out@.len() == k,
                forall|i: int| 0 <= i < k ==> #[trigger] out@[i] == s[i].0,
            decreases n - k,
        {
            out.push(self.entries[k].0);
            k = k + 1;
        }
        proof {
            assert forall|i: int| 0 <= i < out@.len() implies self@.contains_key(#[trigger] out@[i]@) by {
                assert(s[i].0@ == out@[i]@);
            }
            assert forall|kk: Seq<u8>| #[trigger] self@.contains_key(kk) implies exists|i: int| 0 <= i < out@.len() && out@[i]@ == kk by {
                let i = choose|i: int| 0 <= i < s.len() && (#[trigger] s[i]).0@ == kk;
                assert(out@[i]@ == kk);
            }
            lemma_dom_len(s);
        }
        out
    }

    /// Forgets the nodes whose last ping is more than `PING_INTERVAL` whole seconds
    /// before `new_time`.
    pub fn delete_heartbeat_info_before_time(&mut self, new_time: u64)
        ensures
            final(self)@ == old(self)@.restrict(
                old(self)@.dom().filter(|k: Seq<u8>| spec_sub(new_time, old(self)@[k]) <= PING_INTERVAL),
            ),
    {
        proof {
            use_type_invariant(&*self);
        }
        let ghost s = self.entries@;
        let n = self.entries.len();
        let mut kept: Vec<(Address, u64)> = Vec::new();
        let mut k: usize = 0;
        while k < n
            invariant
                n == s.len(),
                s == self.entries@,
                distinct_addresses(s),
                k <= n,
                distinct_addresses(kept@),
                forall|i: int| 0 <= i < kept@.len() ==> #[trigger] kept_from(kept@[i], s, k as int, new_time),
                forall|j: int| 0 <= j < k && spec_sub(new_time, s[j].1) <= PING_INTERVAL ==> exists|i: int| 0 <= i < kept@.len() && kept@[i] == #[trigger] s[j],
            decreases n - k,
        {
            let e = self.entries[k];
            assert(e == s[k as int]);
            if self::sub(new_time, e.1) <= PING_INTERVAL {
                let ghost before = kept@;
                kept.push(e);
                proof {
                    assert forall|i: int, j: int| 0 <= i < kept@.len() && 0 <= j < kept@.len() && i != j implies (#[trigger] kept@[i]).0@ != (#[trigger] kept@[j]).0@ by {
                        if i == before.len() {
                            assert(kept_from(before[j], s, k as int, new_time));
                            let jj = choose|jj: int| 0 <= jj < k && before[j] == #[trigger] s[jj] && spec_sub(new_time, s[jj].1) <= PING_INTERVAL;
                            assert(s[k as int] == e);
                        } else if j == before.len() {
                            assert(kept_from(before[i], s, k as int, new_time));
                            let ii = choose|ii: int| 0 <= ii < k && before[i] == #[trigger] s[ii] && spec_sub(new_time, s[ii].1) <= PING_INTERVAL;
                            assert(s[k as int] == e);
                        } else {
                            assert(kept@[i] == before[i] && kept@[j] == before[j]);
                        }
                    }
                    assert forall|i: int| 0 <= i < kept@.len() implies #[trigger] kept_from(kept@[i], s, k + 1, new_time) by {
                        if i < before.len() {
                            assert(kept@[i] == before[i]);
                            assert(kept_from(before[i], s, k as int, new_time));
                            let j = choose|j: int| 0 <= j < k && before[i] == #[trigger] s[j] && spec_sub(new_time, s[j].1) <= PING_INTERVAL;
                            assert(kept@[i] == s[j]);
                        } else {
                            assert(kept@[i] == s[k as int]);
                        }
                    }
                    assert forall|j: int| 0 <= j < k + 1 && spec_sub(new_time, s[j].1) <= PING_INTERVAL implies exists|i: int| 0 <= i < kept@.len() && kept@[i] == #[trigger] s[j] by {
                        if j < k {
                            let i = choose|i: int| 0 <= i < before.len() && before[i] == #[trigger] s[j];
                            assert(kept@[i] == before[i]);
                        } else {
                            assert(kept@[before.len() as int] == s[j]);
                        }
                    }
                }
            } else {
                proof {
                    assert forall|i: int| 0 <= i < kept@.len() implies #[trigger] kept_from(kept@[i], s, k + 1, new_time) by {
                        assert(kept_from(kept@[i], s, k as int, new_time));
                        let j = choose|j: int| 0 <= j < k && kept@[i] == #[trigger] s[j] && spec_sub(new_time, s[j].1) <= PING_INTERVAL;
                        assert(kept@[i] == s[j]);
                    }
                    assert(s[k as int] == e);
                }
            }
            k = k + 1;
        }
        let ghost t = kept@;
        let ghost m = entries_map(s);
        proof {
            let target = m.restrict(m.dom().filter(|kk: Seq<u8>| spec_sub(new_time, m[kk]) <= PING_INTERVAL));
            assert forall|kk: Seq<u8>| #![trigger entries_map(t).contains_key(kk)] entries_map(t).contains_key(kk) == target.contains_key(kk) by {
                if entries_map(t).contains_key(kk) {
                    let i = choose|i: int| 0 <= i < t.len() && (#[trigger] t[i]).0@ == kk;
                    assert(kept_from(t[i], s, n as int, new_time));
                    let j = choose|j: int| 0 <= j < n && t[i] == #[trigger] s[j] && spec_sub(new_time, s[j].1) <= PING_INTERVAL;
                    lemma_entry_value(s, j);
                }
                if target.contains_key(kk) {
                    let j = choose|j: int| 0 <= j < s.len() && (#[trigger] s[j]).0@ == kk;
                    lemma_entry_value(s, j);
                    let i = choose|i: int| 0 <= i < t.len() && t[i] == #[trigger] s[j];
                    assert(t[i].0@ == kk);
                }
            }
            assert forall|kk: Seq<u8>| #[trigger] entries_map(t).contains_key(kk) implies entries_map(t)[kk] == target[kk] by {
                let i = choose|i: int| 0 <= i < t.len() && (#[trigger] t[i]).0@ == kk;
                assert(kept_from(t[i], s, n as int, new_time));
                let j = choose|j: int| 0 <= j < n && t[i] == #[trigger] s[j] && spec_sub(new_time, s[j].1) <= PING_INTERVAL;
                lemma_entry_value(s, j);
                lemma_entry_value(t, i);
            }
            assert(entries_map(t) =~= target);
        }
        self.entries = kept;
    }

    /// Whether no node is recorded.
    pub fn is_empty(&self) -> (r: bool)
        ensures
            r == (self@.dom() == Set::<Seq<u8>>::empty()),
    {
        proof {
            use_type_invariant(self);
        }
        let r = self.entries.len() == 0;
        proof {
            if !r {
                assert(self@.contains_key(self.entries@[0].0@));
            } else {
                assert(self@.dom() =~= Set::<Seq<u8>>::empty());
            }
        }
        r
    }
}

/// `x` is one of the first `k` entries of `s` and is recent at `new_time`.
spec fn kept_from(x: (Address, u64), s: Seq<(Address, u64)>, k: int, new_time: u64) -> bool {
    exists|j: int| 0 <= j < k && x == #[trigger] s[j] && spec_sub(new_time, s[j].1) <= PING_INTERVAL
}

proof fn lemma_dom_len(s: Seq<(Address, u64)>)
    requires
        distinct_addresses(s),
    ensures
        entries_map(s).dom().finite(),
        entries_map(s).dom().len() == s.len(),
    decreases s.len(),
{
    let d = entries_map(s).dom();
    if s.len() == 0 {
        assert(d =~= Set::<Seq<u8>>::empty());
    } else {
        let p = s.drop_last();
        assert(distinct_addresses(p)) by {
            assert forall|i: int, j: int| 0 <= i < p.len() && 0 <= j < p.len() && i != j implies (#[trigger] p[i]).0@ != (#[trigger] p[j]).0@ by {
                assert(p[i] == s[i] && p[j] == s[j]);
            }
        }
        lemma_dom_len(p);
        let last = s.last().0@;
        assert(d =~= entries_map(p).dom().insert(last)) by {
            assert forall|k: Seq<u8>| #[trigger] d.contains(k) == entries_map(p).dom().insert(last).contains(k) by {
                if d.contains(k) {
                    let i = choose|i: int| 0 <= i < s.len() && (#[trigger] s[i]).0@ == k;
                    if i < s.len() - 1 {
                        assert(p[i] == s[i]);
                    }
                }
                if entries_map(p).dom().contains(k) {
                    let i = choose|i: int| 0 <= i < p.len() && (#[trigger] p[i]).0@ == k;
                    assert(s[i] == p[i]);
                }
                if k == last {
                    assert(s[s.len() - 1].0@ == k);
                }
            }
        }
        assert(!entries_map(p).dom().contains(last)) by {
            if entries_map(p).dom().contains(last) {
                let i = choose|i: int| 0 <= i < p.len() && (#[trigger] p[i]).0@ == last;
                assert(s[i] == p[i]);
            }
        }
    }
}


// ---------------------------------------------------------------------------
// The checking side

/// The address the checking side listens on when none is configured.
pub open spec fn default_listen_address() -> Seq<char> {
    "0.0.0.0:3052"@
}

/// The server that receives heartbeat pings.
#[derive(Debug, Clone)]
pub struct CheckNode {
    pub server_address: String,
}

impl CheckNode {
    /// A server listening on `server_address`, or on `0.0.0.0:3052` if it is empty.
    pub fn new(server_address: String) -> (r: Self)
        ensures
            r.server_address@ == if server_address@.len() == 0 {
                default_listen_address()
            } else {
                server_address@
            },
    {
        if server_address.as_str().is_empty() {
            CheckNode { server_address: "0.0.0.0:3052".to_owned() }
        } else {
            CheckNode { server_address }
        }
    }
}

/// What the checking side answers a message.
#[derive(Clone, Copy, Debug, PartialEq, Eq, Structural)]
pub enum PingReply {
    /// Send `pong` back.
    Pong,
    /// Keep the connection, send nothing.
    Silent,
    /// Shut the connection down.
    Shutdown,
}

/// Takes in a message received at `now` (nanoseconds): `signer` is the address the
/// message's packed signature of `ping` recovers to (`None` when the message is not a
/// signature or recovers to no address). A recovered signer is recorded; it is answered
/// `pong` when the message text starts with `ping`. Otherwise the connection is shut.
pub fn on_ping_message(registry: &mut HeartbeatRegistry, signer: Option<Address>, message: &[u8], now: u64) -> (r: PingReply)
    ensures
        match signer {
            Some(a) => {
                &&& final(registry)@ == old(registry)@.insert(a@, now)
                &&& r == if message@.len() >= 4 && message@.take(4) == seq![112u8, 105u8, 110u8, 103u8] {
                    PingReply::Pong
                } else {
                    PingReply::Silent
                }
            },
            None => final(registry)@ == old(registry)@ && r == PingReply::Shutdown,
        },
{
    match signer {
        Some(a) => {
            registry.add_address(a, now);
            if message.len() >= 4 && message[0] == 112u8 && message[1] == 105u8 && message[2] == 110u8 && message[3] == 103u8 {
                assert(message@.take(4) =~= seq![112u8, 105u8, 110u8, 103u8]);
                PingReply::Pong
            } else {
                proof {
                    if message@.len() >= 4 && message@.take(4) == seq![112u8, 105u8, 110u8, 103u8] {
                        assert(message@.take(4)[0] == 112u8);
                        assert(message@.take(4)[1] == 105u8);
                        assert(message@.take(4)[2] == 110u8);
                        assert(message@.take(4)[3] == 103u8);
                    }
                }
                PingReply::Silent
            }
        },
        None => PingReply::Shutdown,
    }
}

/// One pass of the pruning worker at `now`: when some node is recorded, forget those
/// that went quiet.
pub fn prune_heartbeats(registry: &mut HeartbeatRegistry, now: u64)
    ensures
        final(registry)@ == if old(registry)@.dom() == Set::<Seq<u8>>::empty() {
            old(registry)@
        } else {
            old(registry)@.restrict(
                old(registry)@.dom().filter(|k: Seq<u8>| spec_sub(now, old(registry)@[k]) <= PING_INTERVAL),
            )
        },
{
    if !registry.is_empty() {
        registry.delete_heartbeat_info_before_time(now);
    }
}

/// A node recorded at `ping_time` survives a later prune at `now` exactly when its
/// ping is at most `PING_INTERVAL` whole seconds old, and then keeps its ping time;
/// the other recorded nodes are unaffected by its ping.
pub proof fn law_prune_keeps_recent_pings(before: Map<Seq<u8>, u64>, node: Seq<u8>, ping_time: u64, now: u64)
    ensures
        ({
            let recorded = before.insert(node, ping_time);
            let pruned = recorded.restrict(
                recorded.dom().filter(|k: Seq<u8>| spec_sub(now, recorded[k]) <= PING_INTERVAL),
            );
            &&& spec_sub(now, ping_time) <= PING_INTERVAL ==> pruned.contains_key(node) && pruned[node] == ping_time
            &&& spec_sub(now, ping_time) > PING_INTERVAL ==> !pruned.contains_key(node)
            &&& forall|k: Seq<u8>| k != node && #[trigger] pruned.contains_key(k) ==> before.contains_key(k) && pruned[k] == before[k]
        }),
{
    let recorded = before.insert(node, ping_time);
    assert(recorded[node] == ping_time);
}

// ---------------------------------------------------------------------------
// The pinging side

/// Seconds between pings on the pinging side.
pub const CLIENT_PING_INTERVAL: u64 = 3;

/// Seconds the pinging side waits for an answer.
pub const CLIENT_TIMEOUT: u64 = 3;

/// Failed pings in a row after which the pinging side gives up.
pub const MAX_RETRIES: usize = 5;

/// The address the pinging side pings when none is configured.
pub open spec fn default_ping_address() -> Seq<char> {
    "127.0.0.1:3052"@
}

/// The address to ping: the configured one, or `127.0.0.1:3052` if it is empty.
pub fn ping_address(server_address: &str) -> (r: &str)
    ensures
        r@ == if server_address@.len() == 0 { default_ping_address() } else { server_address@ },
{
    if server_address.is_empty() {
        "127.0.0.1:3052"
    } else {
        server_address
    }
}

/// The error of a failed connection attempt after `retries` failures in a row.
pub fn connect_failure_message(retries: usize) -> (r: &'static str)
    ensures
        r@ == if retries < MAX_RETRIES {
            "Failed to receive PONG"@
        } else {
            "Failed to connect  and reached maximum retry limit"@
        },
{
    if retries < MAX_RETRIES {
        "Failed to receive PONG"
    } else {
        "Failed to connect  and reached maximum retry limit"
    }
}

/// What the pinging side does after a ping attempt: pause, then either stop or pause
/// again before the next attempt.
#[derive(Clone, Copy, Debug, PartialEq, Eq, Structural)]
pub struct HeartbeatStep {
    pub backoff_secs: u64,
    pub stop: bool,
    pub interval_secs: u64,
}

/// The pinging side's count of failed pings in a row.
#[derive(Clone, Copy, Debug, PartialEq, Eq, Structural)]
pub struct HeartbeatClient {
    pub retries: usize,
}

impl HeartbeatClient {
    /// A client that has not failed yet.
    pub fn new() -> (r: Self)
        ensures
            r.retries == 0,
    {
        HeartbeatClient { retries: 0 }
    }

    /// Takes in the outcome of a ping. A success resets the count and waits the ping
    /// interval; a failure counts, waits the interval times the count, and then stops
    /// once the count exceeds `MAX_RETRIES`, else waits the interval again.
    pub fn on_ping_result(&mut self, ok: bool) -> (step: HeartbeatStep)
        requires
            old(self).retries <= MAX_RETRIES,
        ensures
            ok ==> final(self).retries == 0 && step == (HeartbeatStep {
                backoff_secs: 0,
                stop: false,
                interval_secs: CLIENT_PING_INTERVAL,
            }),
            !ok ==> final(self).retries == old(self).retries + 1 && step == (HeartbeatStep {
                backoff_secs: (CLIENT_PING_INTERVAL * final(self).retries) as u64,
                stop: final(self).retries > MAX_RETRIES,
                interval_secs: if final(self).retries > MAX_RETRIES { 0 } else { CLIENT_PING_INTERVAL },
            }),
            step.stop || final(self).retries <= MAX_RETRIES,
    {
        if ok {
            self.retries = 0;
            HeartbeatStep { backoff_secs: 0, stop: false, interval_secs: CLIENT_PING_INTERVAL }
        } else {
            self.retries = self.retries + 1;
            let backoff_secs = CLIENT_PING_INTERVAL * (self.retries as u64);
            if self.retries > MAX_RETRIES {
                HeartbeatStep { backoff_secs, stop: true, interval_secs: 0 }
            } else {
                HeartbeatStep { backoff_secs, stop: false, interval_secs: CLIENT_PING_INTERVAL }
            }
        }
    }
}

} // verus!
