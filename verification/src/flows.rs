//! Per-flow counters and the report of the heaviest flows.
//!
//! The monitors keep one counter per flow (packets or bytes), and every few
//! seconds report the flows with the largest counters, largest first.

use vstd::prelude::*;
use crate::net::{ip_le, ip_less_eq, IpAddress};

verus! {

/// What identifies a flow.
#[derive(Clone, Copy, Debug, PartialEq, Eq, Structural)]
pub enum FlowKey {
    /// Source and destination endpoints, in the direction of the traffic.
    Endpoints { src: IpAddress, src_port: u16, dst: IpAddress, dst_port: u16 },
    /// Two hosts, whichever sent: the lower address first.
    Hosts { low: IpAddress, high: IpAddress },
}

/// The lower of two addresses, as `std::cmp::min` picks it.
pub open spec fn ip_min(a: IpAddress, b: IpAddress) -> IpAddress {
    if ip_le(a, b) {
        a
    } else {
        b
    }
}

/// The higher of two addresses, as `std::cmp::max` picks it.
pub open spec fn ip_max(a: IpAddress, b: IpAddress) -> IpAddress {
    if ip_le(a, b) {
        b
    } else {
        a
    }
}

/// The key of the traffic between `source` and `destination`, whichever
/// way it goes.
pub fn host_pair(source: IpAddress, destination: IpAddress) -> (k: FlowKey)
    ensures
        k == (FlowKey::Hosts { low: ip_min(source, destination), high: ip_max(source, destination) }),
{
    if ip_less_eq(source, destination) {
        FlowKey::Hosts { low: source, high: destination }
    } else {
        FlowKey::Hosts { low: destination, high: source }
    }
}

/// The direction of the traffic does not change its host-pair key.
pub proof fn law_host_pair_symmetric(a: IpAddress, b: IpAddress)
    ensures
        ip_min(a, b) == ip_min(b, a),
        ip_max(a, b) == ip_max(b, a),
        ip_le(ip_min(a, b), ip_max(a, b)),
{
}

/// Of two addresses of one family the host-pair key puts the numerically
/// smaller first; of an IPv4 and an IPv6 address it puts the IPv4 one
/// first, whichever way the traffic goes.
pub proof fn law_host_pair_lower_first(x: u128, y: u128, a: u32, b: u32)
    ensures
        ip_min(IpAddress::V6(x), IpAddress::V6(y)) == IpAddress::V6(if x <= y { x } else { y }),
        ip_max(IpAddress::V6(x), IpAddress::V6(y)) == IpAddress::V6(if x <= y { y } else { x }),
        ip_min(IpAddress::V4(a), IpAddress::V4(b)) == IpAddress::V4(if a <= b { a } else { b }),
        ip_max(IpAddress::V4(a), IpAddress::V4(b)) == IpAddress::V4(if a <= b { b } else { a }),
        ip_min(IpAddress::V4(a), IpAddress::V6(x)) == IpAddress::V4(a),
        ip_min(IpAddress::V6(x), IpAddress::V4(a)) == IpAddress::V4(a),
        ip_max(IpAddress::V4(a), IpAddress::V6(x)) == IpAddress::V6(x),
        ip_max(IpAddress::V6(x), IpAddress::V4(a)) == IpAddress::V6(x),
{
}

/// The key of a segment from `src:src_port` to `dst:dst_port`.
pub fn endpoint_key(src: IpAddress, src_port: u16, dst: IpAddress, dst_port: u16) -> (k: FlowKey)
    ensures
        k == (FlowKey::Endpoints { src, src_port, dst, dst_port }),
{
    FlowKey::Endpoints { src, src_port, dst, dst_port }
}

// ---------------------------------------------------------------------------
// The table
// ---------------------------------------------------------------------------

/// No key occurs twice.
pub open spec fn keys_distinct(s: Seq<(FlowKey, u64)>) -> bool {
    forall|i: int, j: int| 0 <= i < s.len() && 0 <= j < s.len() && i != j ==> s[i].0 != s[j].0
}

/// Entry `i` holds `key`.
pub open spec fn is_key_at(s: Seq<(FlowKey, u64)>, key: FlowKey, i: int) -> bool {
    0 <= i < s.len() && s[i].0 == key
}

/// `key` has an entry.
pub open spec fn has_key(s: Seq<(FlowKey, u64)>, key: FlowKey) -> bool {
    exists|i: int| is_key_at(s, key, i)
}

/// The counter of `key`; 0 when it has no entry.
pub open spec fn count_of(s: Seq<(FlowKey, u64)>, key: FlowKey) -> nat {
    if has_key(s, key) {
        s[choose|i: int| is_key_at(s, key, i)].1 as nat
    } else {
        0
    }
}

/// The table after adding `amount` to the counter of `key`: an existing
/// entry grows in place, a new key gets an entry at the end.
pub open spec fn added(s: Seq<(FlowKey, u64)>, key: FlowKey, amount: u64) -> Seq<(FlowKey, u64)> {
    if has_key(s, key) {
        let i = choose|i: int| is_key_at(s, key, i);
        s.update(i, (key, (s[i].1 + amount) as u64))
    } else {
        s.push((key, amount))
    }
}

/// Counters of flows.
pub struct FlowTable {
    entries: Vec<(FlowKey, u64)>,
}

impl View for FlowTable {
    type V = Seq<(FlowKey, u64)>;

    closed spec fn view(&self) -> Seq<(FlowKey, u64)> {
        self.entries@
    }
}

proof fn lemma_key_at(s: Seq<(FlowKey, u64)>, key: FlowKey, i: int)
    requires
        keys_distinct(s),
        is_key_at(s, key, i),
    ensures
        has_key(s, key),
        count_of(s, key) == s[i].1,
        added(s, key, 0) == s.update(i, (key, (s[i].1 + 0) as u64)),
        forall|a: u64| #[trigger] added(s, key, a) == s.update(i, (key, (s[i].1 + a) as u64)),
{
    let k = choose|k: int| is_key_at(s, key, k);
    assert(k == i);
}

impl FlowTable {
    /// No flow has two entries.
    pub open spec fn wf(&self) -> bool {
        keys_distinct(self@)
    }

    /// An empty table.
    pub fn new() -> (t: FlowTable)
        ensures
            t@ == Seq::<(FlowKey, u64)>::empty(),
            t.wf(),
    {
        FlowTable { entries: Vec::new() }
    }

    /// Number of flows with an entry.
    pub fn len(&self) -> (n: usize)
        ensures
            n == self@.len(),
    {
        self.entries.len()
    }

    fn position(&self, key: FlowKey) -> (r: Option<usize>)
        requires
            self.wf(),
        ensures
            r matches Some(i) ==> is_key_at(self@, key, i as int),
            r is None ==> !has_key(self@, key),
    {
        let mut i: usize = 0;
        while i < self.entries.len()
            invariant
                i <= self.entries.len(),
                forall|j: int| 0 <= j < i ==> self@[j].0 != key,
            decreases self.entries.len() - i,
        {
            if self.entries[i].0 == key {
                return Some(i);
            }
            i = i + 1;
        }
        None
    }

    /// The counter of `key`; 0 when it has no entry.
    pub fn count(&self, key: FlowKey) -> (c: u64)
        requires
            self.wf(),
        ensures
            c == count_of(self@, key),
    {
        match self.position(key) {
            Some(i) => {
                proof {
                    lemma_key_at(self@, key, i as int);
                }
                self.entries[i].1
            },
            None => 0,
        }
    }

    /// Adds `amount` to the counter of `key`, creating its entry if needed.
    pub fn add(&mut self, key: FlowKey, amount: u64)
        requires
            old(self).wf(),
            count_of(old(self)@, key) + amount <= u64::MAX,
        ensures
            final(self).wf(),
            final(self)@ == added(old(self)@, key, amount),
    {
        match self.position(key) {
            Some(i) => {
                proof {
                    lemma_key_at(self@, key, i as int);
                }
                let c = self.entries[i].1;
                self.entries.set(i, (key, c + amount));
            },
            None => {
                let ghost before = self@;
                self.entries.push((key, amount));
                proof {
                    assert forall|i: int, j: int|
                        0 <= i < self@.len() && 0 <= j < self@.len() && i != j implies self@[i].0
                        != self@[j].0 by {
                        if i < before.len() && j < before.len() {
                            assert(self@[i] == before[i]);
                            assert(self@[j] == before[j]);
                        } else if i < before.len() {
                            assert(self@[i] == before[i]);
                            assert(!is_key_at(before, key, i));
                        } else if j < before.len() {
                            assert(self@[j] == before[j]);
                            assert(!is_key_at(before, key, j));
                        }
                    }
                }
            },
        }
    }

    /// Forgets every flow.
    pub fn clear(&mut self)
        ensures
            final(self)@ == Seq::<(FlowKey, u64)>::empty(),
            final(self).wf(),
    {
        self.entries.clear();
    }

    /// The `k` flows with the largest counters, largest first (all flows
    /// when there are fewer). Which of several flows with equal counters
    /// comes first is not fixed.
    pub fn top(&self, k: usize) -> (res: Vec<(FlowKey, u64)>)
        requires
            self.wf(),
        ensures
            res.len() == if k < self@.len() {
                k as int
            } else {
                self@.len() as int
            },
            forall|i: int, j: int| 0 <= i < j < res.len() ==> res@[i].1 >= res@[j].1,
            forall|i: int| 0 <= i < res.len() ==> self@.contains(#[trigger] res@[i]),
            res@.no_duplicates(),
            forall|e: (FlowKey, u64)|
                #![trigger self@.contains(e), res@.contains(e)]
                self@.contains(e) && !res@.contains(e) ==> forall|i: int|
                    0 <= i < res.len() ==> e.1 <= #[trigger] res@[i].1,
    {
        let ghost all = self@;
        let n = self.entries.len();
        let m = if k < n {
            k
        } else {
            n
        };
        let mut rest: Vec<(FlowKey, u64)> = Vec::new();
        let mut c: usize = 0;
        while c < n
            invariant
                c <= n,
                n == self@.len(),
                rest@ == self@.take(c as int),
            decreases n - c,
        {
            rest.push(self.entries[c]);
            c = c + 1;
            assert(rest@ =~= self@.take(c as int));
        }
        let mut out: Vec<(FlowKey, u64)> = Vec::new();
        proof {
            assert(rest@ =~= all);
            assert(all.no_duplicates()) by {
                assert forall|i: int, j: int|
                    0 <= i < all.len() && 0 <= j < all.len() && i != j implies all[i]
                    != all[j] by {
                    assert(all[i].0 != all[j].0);
                }
            }
        }
        while out.len() < m
            invariant
                m <= n,
                n == all.len(),
                all == self@,
                all.no_duplicates(),
                out.len() + rest.len() == n,
                out.len() <= m,
                rest@.no_duplicates(),
                out@.no_duplicates(),
                forall|e: (FlowKey, u64)|
                    #![trigger all.contains(e)]
                    all.contains(e) <==> (out@.contains(e) || rest@.contains(e)),
                forall|e: (FlowKey, u64)|
                    #![trigger out@.contains(e), rest@.contains(e)]
                    !(out@.contains(e) && rest@.contains(e)),
                forall|i: int, j: int| 0 <= i < j < out.len() ==> out@[i].1 >= out@[j].1,
                forall|a: int, b: int|
                    0 <= a < rest.len() && 0 <= b < out.len() ==> rest@[a].1 <= out@[b].1,
            decreases m - out.len(),
        {
            let mut best: usize = 0;
            let mut j: usize = 1;
            while j < rest.len()
                invariant
                    0 < rest.len(),
                    best < rest.len(),
                    1 <= j <= rest.len(),
                    forall|a: int| 0 <= a < j ==> rest@[a].1 <= rest@[best as int].1,
                decreases rest.len() - j,
            {
                if rest[j].1 > rest[best].1 {
                    best = j;
                }
                j = j + 1;
            }
            let ghost old_rest = rest@;
            let ghost old_out = out@;
            let chosen = rest.remove(best);
            out.push(chosen);
            proof {
                assert(chosen == old_rest[best as int]);
                assert forall|a: int| 0 <= a < rest.len() implies #[trigger] rest@[a]
                    == old_rest[if a < best {
                    a
                } else {
                    a + 1
                }] by {}
                assert forall|e: (FlowKey, u64)| #[trigger]
                    rest@.contains(e) <==> (old_rest.contains(e) && e != chosen) by {
                    if rest@.contains(e) {
                        let a = choose|a: int| 0 <= a < rest.len() && rest@[a] == e;
                        let a2 = if a < best {
                            a
                        } else {
                            a + 1
                        };
                        assert(old_rest[a2] == e);
                        assert(a2 != best);
                    }
                    if old_rest.contains(e) && e != chosen {
                        let a = choose|a: int| 0 <= a < old_rest.len() && old_rest[a] == e;
                        assert(a != best);
                        let a2 = if a < best {
                            a
                        } else {
                            a - 1
                        };
                        assert(rest@[a2] == e);
                    }
                }
                assert forall|e: (FlowKey, u64)| #[trigger]
                    out@.contains(e) <==> (old_out.contains(e) || e == chosen) by {
                    if out@.contains(e) {
                        let a = choose|a: int| 0 <= a < out.len() && out@[a] == e;
                        if a < old_out.len() {
                            assert(old_out[a] == e);
                        }
                    }
                    if old_out.contains(e) {
                        let a = choose|a: int| 0 <= a < old_out.len() && old_out[a] == e;
                        assert(out@[a] == e);
                    }
                    if e == chosen {
                        assert(out@[old_out.len() as int] == e);
                    }
                }
                assert(rest@.no_duplicates());
                assert(out@.no_duplicates()) by {
                    assert(!old_out.contains(chosen)) by {
                        assert(old_rest.contains(chosen));
                    }
                }
            }
        }
        out
    }
}

/// Adding to a counter changes that counter by the amount and no other;
/// the key has an entry afterwards.
pub proof fn law_add_counts(s: Seq<(FlowKey, u64)>, key: FlowKey, amount: u64, other: FlowKey)
    requires
        keys_distinct(s),
        count_of(s, key) + amount <= u64::MAX,
    ensures
        has_key(added(s, key, amount), key),
        count_of(added(s, key, amount), key) == count_of(s, key) + amount,
        other != key ==> count_of(added(s, key, amount), other) == count_of(s, other),
        other != key ==> (has_key(added(s, key, amount), other) <==> has_key(s, other)),
        keys_distinct(added(s, key, amount)),
{
    let t = added(s, key, amount);
    if has_key(s, key) {
        let i = choose|i: int| is_key_at(s, key, i);
        lemma_key_at(s, key, i);
        assert(t == s.update(i, (key, (s[i].1 + amount) as u64)));
        assert(keys_distinct(t)) by {
            assert forall|a: int, b: int|
                0 <= a < t.len() && 0 <= b < t.len() && a != b implies t[a].0 != t[b].0 by {
                if a != i && b != i {
                    assert(s[a].0 != s[b].0);
                } else if a == i {
                    assert(s[i].0 != s[b].0);
                } else {
                    assert(s[a].0 != s[i].0);
                }
            }
        }
        lemma_key_at(t, key, i);
        if other != key {
            if has_key(s, other) {
                let j = choose|j: int| is_key_at(s, other, j);
                assert(is_key_at(t, other, j));
                lemma_key_at(s, other, j);
                lemma_key_at(t, other, j);
            }
            if has_key(t, other) {
                let j = choose|j: int| is_key_at(t, other, j);
                assert(is_key_at(s, other, j));
            }
        }
    } else {
        assert(t == s.push((key, amount)));
        assert(keys_distinct(t)) by {
            assert forall|a: int, b: int|
                0 <= a < t.len() && 0 <= b < t.len() && a != b implies t[a].0 != t[b].0 by {
                if a < s.len() && b < s.len() {
                    assert(s[a].0 != s[b].0);
                } else if a < s.len() {
                    assert(!is_key_at(s, key, a));
                } else if b < s.len() {
                    assert(!is_key_at(s, key, b));
                }
            }
        }
        lemma_key_at(t, key, s.len() as int);
        if other != key {
            if has_key(s, other) {
                let j = choose|j: int| is_key_at(s, other, j);
                assert(is_key_at(t, other, j));
                lemma_key_at(s, other, j);
                lemma_key_at(t, other, j);
            }
            if has_key(t, other) {
                let j = choose|j: int| is_key_at(t, other, j);
                assert(j < s.len());
                assert(is_key_at(s, other, j));
            }
        }
    }
}

} // verus!
