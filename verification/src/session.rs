//! The peer/session table: one entry of transfer state per distinct
//! remote address, created lazily on the first datagram from an
//! address, and reaped when dead or idle too long.

use vstd::prelude::*;
use vstd::std_specs::vec::vec_index_mut;

use crate::packet::Packet;
use crate::tftp::{is_fresh_peer, packet_transition, resolution_fits, Peer, Resolution};

verus! {

/// The reaper's cadence: sweeps run no more often than once in this
/// many ticks, and only while datagrams arrive.
pub const PEER_REAPER_CHECK_SEC: u64 = 10;

/// The default idle-eviction threshold, in ticks.
pub const PEER_MAX_AGE_SEC: u64 = 300;

/// A remote endpoint as plain values: the IP address (an IPv4 address
/// stands here as its IPv6-mapped number) and the port.
#[derive(Clone, Copy, Debug, PartialEq, Eq, Hash, Structural)]
pub struct PeerAddr {
    pub ip: u128,
    pub port: u16,
}

/// One session: a remote address and the transfer state it owns.
pub struct PeerEntry {
    pub addr: PeerAddr,
    pub peer: Peer,
}

/// The position of the entry for `addr` at or after `from`, if any.
pub open spec fn find_addr(entries: Seq<PeerEntry>, addr: PeerAddr, from: int) -> Option<int>
    decreases entries.len() - from,
{
    if from < 0 || from >= entries.len() {
        Option::None
    } else if entries[from].addr == addr {
        Option::Some(from)
    } else {
        find_addr(entries, addr, from + 1)
    }
}

/// Scanning a stretch of other addresses settles what `find_addr`
/// yields: the first match at its end, or nothing at the table's end.
proof fn lemma_find_addr_scan(entries: Seq<PeerEntry>, addr: PeerAddr, from: int, end: int)
    requires
        0 <= from <= end <= entries.len(),
        forall|k: int| from <= k < end ==> entries[k].addr != addr,
        end == entries.len() || entries[end].addr == addr,
    ensures
        find_addr(entries, addr, from) == (if end == entries.len() {
            Option::<int>::None
        } else {
            Option::Some(end)
        }),
    decreases end - from,
{
    if from < end {
        lemma_find_addr_scan(entries, addr, from + 1, end);
    }
}

/// A found position is in range and carries the sought address.
pub proof fn lemma_find_addr_range(entries: Seq<PeerEntry>, addr: PeerAddr, from: int)
    ensures
        find_addr(entries, addr, from) matches Some(j) ==> from <= j < entries.len()
            && entries[j].addr == addr,
    decreases entries.len() - from,
{
    if 0 <= from < entries.len() && entries[from].addr != addr {
        lemma_find_addr_range(entries, addr, from + 1);
    }
}

/// True when no two entries share an address.
pub open spec fn unique_addrs(entries: Seq<PeerEntry>) -> bool {
    forall|i: int, j: int| 0 <= i < j < entries.len() ==> entries[i].addr != entries[j].addr
}

/// True when a sweep at `now` evicts the peer: it is dead, or has been
/// idle for longer than `max_age` ticks.
pub open spec fn expired(peer: Peer, now: u64, max_age: u64) -> bool {
    peer.dead || (now > peer.last_activity && now - peer.last_activity > max_age)
}

/// The entries a sweep at `now` keeps, in their table order.
pub open spec fn survivors(entries: Seq<PeerEntry>, now: u64, max_age: u64) -> Seq<PeerEntry>
    decreases entries.len(),
{
    if entries.len() == 0 {
        Seq::empty()
    } else {
        let rest = survivors(entries.drop_last(), now, max_age);
        if expired(entries.last().peer, now, max_age) {
            rest
        } else {
            rest.push(entries.last())
        }
    }
}

/// Every survivor comes from the swept table and is not expired, and
/// every entry of the swept table that is not expired survives.
proof fn lemma_survivors_members(entries: Seq<PeerEntry>, now: u64, max_age: u64)
    ensures
        forall|k: int| #![trigger survivors(entries, now, max_age)[k]]
            0 <= k < survivors(entries, now, max_age).len() ==> !expired(
                survivors(entries, now, max_age)[k].peer,
                now,
                max_age,
            ) && entries.contains(survivors(entries, now, max_age)[k]),
        forall|k: int|
            0 <= k < entries.len() && !expired(entries[k].peer, now, max_age)
                ==> survivors(entries, now, max_age).contains(#[trigger] entries[k]),
    decreases entries.len(),
{
    if entries.len() > 0 {
        let head = entries.drop_last();
        lemma_survivors_members(head, now, max_age);
        let surv = survivors(entries, now, max_age);
        let rest = survivors(head, now, max_age);
        assert forall|k: int| 0 <= k < surv.len() implies !expired(
            surv[k].peer,
            now,
            max_age,
        ) && entries.contains(surv[k]) by {
            if k < rest.len() {
                assert(surv[k] == rest[k]);
                let i = choose|i: int| 0 <= i < head.len() && head[i] == rest[k];
                assert(entries[i] == rest[k]);
            } else {
                assert(surv[k] == entries.last());
                assert(entries[entries.len() - 1] == entries.last());
            }
        }
        assert forall|k: int|
            0 <= k < entries.len() && !expired(entries[k].peer, now, max_age) implies surv.contains(
            entries[k],
        ) by {
            if k < entries.len() - 1 {
                assert(head[k] == entries[k]);
                assert(rest.contains(entries[k]));
                let i = choose|i: int| 0 <= i < rest.len() && rest[i] == entries[k];
                assert(surv[i] == entries[k]);
            } else {
                assert(surv[surv.len() - 1] == entries.last());
            }
        }
    }
}

/// A sweep of a table with unique addresses keeps them unique.
proof fn lemma_survivors_unique(entries: Seq<PeerEntry>, now: u64, max_age: u64)
    requires
        unique_addrs(entries),
    ensures
        unique_addrs(survivors(entries, now, max_age)),
    decreases entries.len(),
{
    if entries.len() > 0 {
        let head = entries.drop_last();
        assert(unique_addrs(head)) by {
            assert(forall|k: int| 0 <= k < head.len() ==> head[k] == entries[k]);
        }
        lemma_survivors_unique(head, now, max_age);
        lemma_survivors_members(head, now, max_age);
        let surv = survivors(entries, now, max_age);
        let rest = survivors(head, now, max_age);
        if !expired(entries.last().peer, now, max_age) {
            assert forall|i: int, j: int| 0 <= i < j < surv.len() implies surv[i].addr
                != surv[j].addr by {
                if j == surv.len() - 1 {
                    assert(surv[i] == rest[i]);
                    assert(head.contains(rest[i]));
                    let k = choose|k: int| 0 <= k < head.len() && head[k] == rest[i];
                    assert(entries[k] == rest[i]);
                    assert(entries[k].addr != entries[entries.len() - 1].addr);
                } else {
                    assert(surv[i] == rest[i] && surv[j] == rest[j]);
                }
            }
        }
    }
}

/// The session table: at most one entry per distinct remote address.
pub struct SessionTable {
    entries: Vec<PeerEntry>,
}

impl View for SessionTable {
    type V = Seq<PeerEntry>;

    closed spec fn view(&self) -> Seq<PeerEntry> {
        self.entries@
    }
}

impl SessionTable {
    /// The table's invariant: no address occurs twice.
    pub open spec fn wf(&self) -> bool {
        unique_addrs(self@)
    }

    /// An empty table.
    pub fn new() -> (table: SessionTable)
        ensures
            table@ == Seq::<PeerEntry>::empty(),
            table.wf(),
    {
        let table = SessionTable { entries: Vec::new() };
        proof {
            assert(table@ =~= Seq::<PeerEntry>::empty());
        }
        table
    }

    /// How many peers the table holds.
    pub fn len(&self) -> (n: usize)
        ensures
            n == self@.len(),
    {
        self.entries.len()
    }

    /// The entry for `addr`, if the table holds one.
    #[verifier::loop_isolation(false)]
    pub fn get(&self, addr: PeerAddr) -> (r: Option<&Peer>)
        ensures
            (match find_addr(self@, addr, 0) {
                Option::Some(j) => r matches Some(peer) && *peer == self@[j].peer,
                Option::None => r is None,
            }),
    {
        let n = self.entries.len();
        let mut i: usize = 0;
        while i < n
            invariant
                i <= n,
                n == self@.len(),
                forall|k: int| 0 <= k < i ==> self@[k].addr != addr,
            decreases n - i,
        {
            if self.entries[i].addr == addr {
                proof {
                    lemma_find_addr_scan(self@, addr, 0, i as int);
                }
                return Some(&self.entries[i].peer);
            }
            i = i + 1;
        }
        proof {
            lemma_find_addr_scan(self@, addr, 0, n as int);
        }
        None
    }

    /// Whether the table holds an entry for `addr`.
    pub fn contains_addr(&self, addr: PeerAddr) -> (present: bool)
        ensures
            present == (find_addr(self@, addr, 0) is Some),
    {
        self.get(addr).is_some()
    }

    /// The single upsert every inbound datagram performs: the existing
    /// entry for `addr` with its activity refreshed, or a fresh one
    /// appended; either way the entry's position comes back. There is
    /// no way to look a peer up without establishing it.
    #[verifier::loop_isolation(false)]
    pub fn lookup_or_create(&mut self, addr: PeerAddr, now: u64) -> (i: usize)
        requires
            old(self).wf(),
        ensures
            final(self).wf(),
            i < final(self)@.len(),
            final(self)@[i as int].addr == addr,
            (match find_addr(old(self)@, addr, 0) {
                Option::Some(j) => {
                    &&& i == j
                    &&& final(self)@ == old(self)@.update(
                        j,
                        (PeerEntry {
                            addr: old(self)@[j].addr,
                            peer: (Peer { last_activity: now, ..old(self)@[j].peer }),
                        }),
                    )
                },
                Option::None => {
                    &&& i == old(self)@.len()
                    &&& final(self)@.len() == old(self)@.len() + 1
                    &&& final(self)@.subrange(0, old(self)@.len() as int) == old(self)@
                    &&& is_fresh_peer(final(self)@[i as int].peer, now)
                },
            }),
    {
        let ghost s0 = self.entries@;
        let n = self.entries.len();
        let mut i: usize = 0;
        while i < n
            invariant
                i <= n,
                n == self.entries@.len(),
                self.entries@ == s0,
                forall|k: int| 0 <= k < i ==> s0[k].addr != addr,
            decreases n - i,
        {
            if self.entries[i].addr == addr {
                proof {
                    lemma_find_addr_scan(s0, addr, 0, i as int);
                }
                let entry = vec_index_mut(&mut self.entries, i);
                entry.peer.last_activity = now;
                proof {
                    assert(self.entries@ =~= s0.update(
                        i as int,
                        (PeerEntry {
                            addr: s0[i as int].addr,
                            peer: (Peer { last_activity: now, ..s0[i as int].peer }),
                        }),
                    ));
                    assert forall|a: int, b: int|
                        0 <= a < b < self.entries@.len() implies self.entries@[a].addr
                        != self.entries@[b].addr by {
                        assert(self.entries@[a].addr == s0[a].addr);
                        assert(self.entries@[b].addr == s0[b].addr);
                    }
                }
                return i;
            }
            i = i + 1;
        }
        proof {
            lemma_find_addr_scan(s0, addr, 0, n as int);
        }
        self.entries.push(PeerEntry { addr, peer: Peer::new(now) });
        proof {
            let s1 = self.entries@;
            assert(s1.subrange(0, s0.len() as int) =~= s0);
            assert forall|a: int, b: int| 0 <= a < b < s1.len() implies s1[a].addr
                != s1[b].addr by {
                assert(s1[a] == s0[a]);
                if b < s0.len() as int {
                    assert(s1[b] == s0[b]);
                } else {
                    assert(s1[b].addr == addr);
                }
            }
        }
        n
    }

    /// Dispatch one decoded packet from `addr`: establish or refresh
    /// the addressed peer, then run the engine against it. No other
    /// peer's entry changes in any way.
    pub fn handle_packet(
        &mut self,
        addr: PeerAddr,
        now: u64,
        packet: Packet,
        res: Resolution,
    ) -> (reply: Option<Packet>)
        requires
            old(self).wf(),
            resolution_fits(packet@, res),
        ensures
            final(self).wf(),
            ({
                let s0 = old(self)@;
                let found = find_addr(s0, addr, 0);
                let idx: int = (match found {
                    Option::Some(j) => j,
                    Option::None => s0.len() as int,
                });
                &&& final(self)@.len() == (if found is Some {
                    s0.len() as int
                } else {
                    s0.len() + 1 as int
                })
                &&& 0 <= idx < final(self)@.len()
                &&& final(self)@[idx].addr == addr
                &&& (match found {
                    Option::Some(j) => packet_transition(
                        (Peer { last_activity: now, ..s0[j].peer }),
                        packet@,
                        res,
                        final(self)@[idx].peer,
                        reply,
                    ),
                    Option::None => exists|fresh: Peer|
                        is_fresh_peer(fresh, now) && packet_transition(
                            fresh,
                            packet@,
                            res,
                            final(self)@[idx].peer,
                            reply,
                        ),
                })
                &&& forall|k: int| 0 <= k < s0.len() && k != idx ==> final(self)@[k] == s0[k]
            }),
    {
        let i = self.lookup_or_create(addr, now);
        let ghost mid = self.entries@;
        let entry = vec_index_mut(&mut self.entries, i);
        let reply = crate::tftp::handle_packet(&mut entry.peer, packet, res);
        proof {
            let s0 = old(self)@;
            let s1 = self.entries@;
            lemma_find_addr_range(s0, addr, 0);
            assert(s1 == mid.update(i as int, (PeerEntry { addr, peer: s1[i as int].peer })));
            match find_addr(s0, addr, 0) {
                Option::Some(j) => {
                    assert(mid[i as int].peer == (Peer { last_activity: now, ..s0[j].peer }));
                    assert forall|k: int| 0 <= k < s0.len() && k != i as int implies s1[k]
                        == s0[k] by {
                        assert(s1[k] == mid[k]);
                        assert(mid[k] == s0[k]);
                    }
                },
                Option::None => {
                    assert(is_fresh_peer(mid[i as int].peer, now) && packet_transition(
                        mid[i as int].peer,
                        packet@,
                        res,
                        s1[i as int].peer,
                        reply,
                    ));
                    assert forall|k: int| 0 <= k < s0.len() && k != i as int implies s1[k]
                        == s0[k] by {
                        assert(s1[k] == mid[k]);
                        assert(mid.subrange(0, s0.len() as int)[k] == s0[k]);
                        assert(mid[k] == s0[k]);
                    }
                },
            }
            assert forall|a: int, b: int| 0 <= a < b < s1.len() implies s1[a].addr
                != s1[b].addr by {
                assert(s1[a].addr == mid[a].addr);
                assert(s1[b].addr == mid[b].addr);
            }
        }
        reply
    }

    /// Sweep the table at `now`: every dead peer and every peer idle
    /// for longer than `max_age` is removed; the others keep their
    /// state and their order.
    pub fn reap(&mut self, now: u64, max_age: u64)
        requires
            old(self).wf(),
        ensures
            final(self).wf(),
            final(self)@ == survivors(old(self)@, now, max_age),
            forall|k: int|
                0 <= k < final(self)@.len() ==> !expired(final(self)@[k].peer, now, max_age),
            forall|k: int|
                0 <= k < old(self)@.len() && !expired(old(self)@[k].peer, now, max_age)
                    ==> final(self)@.contains(#[trigger] old(self)@[k]),
    {
        let ghost s0 = self.entries@;
        let mut i: usize = 0;
        let ghost mut j: int = 0;
        while i < self.entries.len()
            invariant
                0 <= j <= s0.len(),
                self.entries@ == survivors(s0.subrange(0, j), now, max_age) + s0.subrange(
                    j,
                    s0.len() as int,
                ),
                i == survivors(s0.subrange(0, j), now, max_age).len(),
            decreases s0.len() - j,
        {
            proof {
                assert(self.entries@[i as int] == s0[j]);
                assert(s0.subrange(0, j + 1).drop_last() =~= s0.subrange(0, j));
                assert(s0.subrange(0, j + 1).last() == s0[j]);
            }
            let dead = self.entries[i].peer.dead;
            let last_activity = self.entries[i].peer.last_activity;
            if dead || (now > last_activity && now - last_activity > max_age) {
                self.entries.remove(i);
                proof {
                    j = j + 1;
                    assert(self.entries@ =~= survivors(s0.subrange(0, j), now, max_age)
                        + s0.subrange(j, s0.len() as int));
                }
            } else {
                i = i + 1;
                proof {
                    j = j + 1;
                    assert(self.entries@ =~= survivors(s0.subrange(0, j), now, max_age)
                        + s0.subrange(j, s0.len() as int));
                }
            }
        }
        proof {
            assert(s0.subrange(0, j) =~= s0);
            assert(self.entries@ =~= survivors(s0, now, max_age));
            lemma_survivors_members(s0, now, max_age);
            lemma_survivors_unique(s0, now, max_age);
        }
    }
}

/// Whether the reaper's cadence has elapsed since the last sweep.
pub fn reap_due(now: u64, last_check: u64) -> (due: bool)
    ensures
        due == (now > last_check && now - last_check > PEER_REAPER_CHECK_SEC),
{
    now > last_check && now - last_check > PEER_REAPER_CHECK_SEC
}

} // verus!
