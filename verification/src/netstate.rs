//! The network snapshot served by the local observability endpoint: which
//! peers are known, how they were discovered, whether they are connected,
//! and the last measured round-trip time.

use vstd::prelude::*;

use crate::config::Config;
use crate::strutil::str_eq;
use crate::time::now_ms;

verus! {

/// One configured bootstrap peer, with the peer id extracted from its
/// multiaddr when the address carries one.
#[derive(Debug, Clone)]
pub struct BootstrapPeerRow {
    pub multiaddr: String,
    pub peer_id: Option<String>,
    pub connected: bool,
}

/// One known peer.
#[derive(Debug, Clone)]
pub struct PeerRow {
    pub peer_id: String,
    pub connected: bool,
    /// The discovery mechanisms that reported this peer, each recorded once.
    pub discovered_via: Vec<String>,
    pub last_rtt_ms: Option<u64>,
}

/// The peer with the given id, if any.
pub open spec fn find_peer(s: Seq<PeerRow>, pid: Seq<char>) -> Option<PeerRow>
    decreases s.len(),
{
    if s.len() == 0 {
        None
    } else if s[0].peer_id@ == pid {
        Some(s[0])
    } else {
        find_peer(s.drop_first(), pid)
    }
}

pub open spec fn peers_unique(s: Seq<PeerRow>) -> bool {
    forall|i: int, j: int| 0 <= i < j < s.len() ==> s[i].peer_id@ != s[j].peer_id@
}

proof fn lemma_find_peer_by_index(s: Seq<PeerRow>, pid: Seq<char>, i: int)
    requires
        peers_unique(s),
        0 <= i < s.len(),
        s[i].peer_id@ == pid,
    ensures
        find_peer(s, pid) == Some(s[i]),
    decreases s.len(),
{
    if i > 0 {
        assert(s[0].peer_id@ != pid);
        assert(s.drop_first()[i - 1] == s[i]);
        assert(peers_unique(s.drop_first())) by {
            assert(forall|a: int, b: int|
                0 <= a < b < s.drop_first().len() ==> s.drop_first()[a] == s[a + 1]
                    && s.drop_first()[b] == s[b + 1]);
        }
        lemma_find_peer_by_index(s.drop_first(), pid, i - 1);
    }
}

proof fn lemma_find_peer_none(s: Seq<PeerRow>, pid: Seq<char>)
    requires
        forall|i: int| 0 <= i < s.len() ==> s[i].peer_id@ != pid,
    ensures
        find_peer(s, pid) is None,
    decreases s.len(),
{
    if s.len() > 0 {
        assert(forall|i: int| 0 <= i < s.drop_first().len() ==> s.drop_first()[i] == s[i + 1]);
        lemma_find_peer_none(s.drop_first(), pid);
    }
}

proof fn lemma_find_peer_push_frame(s: Seq<PeerRow>, p: PeerRow, pid: Seq<char>)
    requires
        pid != p.peer_id@,
    ensures
        find_peer(s.push(p), pid) == find_peer(s, pid),
    decreases s.len(),
{
    if s.len() == 0 {
        assert(s.push(p)[0] == p);
        assert(s.push(p).drop_first() =~= Seq::<PeerRow>::empty());
        assert(find_peer(s.push(p), pid) == find_peer(s.push(p).drop_first(), pid));
        assert(find_peer(s.push(p).drop_first(), pid) is None);
    } else {
        assert(s.push(p)[0] == s[0]);
        assert(s.push(p).drop_first() =~= s.drop_first().push(p));
        lemma_find_peer_push_frame(s.drop_first(), p, pid);
        if s[0].peer_id@ != pid {
            assert(find_peer(s.push(p), pid) == find_peer(s.push(p).drop_first(), pid));
            assert(find_peer(s, pid) == find_peer(s.drop_first(), pid));
        }
    }
}

proof fn lemma_find_peer_update_frame(s: Seq<PeerRow>, i: int, p: PeerRow, pid: Seq<char>)
    requires
        0 <= i < s.len(),
        p.peer_id@ == s[i].peer_id@,
        pid != p.peer_id@,
    ensures
        find_peer(s.update(i, p), pid) == find_peer(s, pid),
    decreases s.len(),
{
    let t = s.update(i, p);
    if i == 0 {
        assert(t[0] == p);
        assert(s[0].peer_id@ != pid);
        assert(t.drop_first() =~= s.drop_first());
    } else {
        assert(t[0] == s[0]);
        assert(t.drop_first() =~= s.drop_first().update(i - 1, p));
        assert(s.drop_first()[i - 1] == s[i]);
        lemma_find_peer_update_frame(s.drop_first(), i - 1, p, pid);
    }
}

/// The row a fresh, never-connected peer gets.
pub open spec fn default_peer_row(pid: Seq<char>, connected: bool, p: PeerRow) -> bool {
    &&& p.peer_id@ == pid
    &&& p.connected == connected
    &&& p.discovered_via@ == Seq::<String>::empty()
    &&& p.last_rtt_ms is None
}

/// How a bootstrap row's flag relates to the peer table: connected exactly
/// when its peer id is known and that peer is connected.
pub open spec fn bootstrap_flag_current(bp: BootstrapPeerRow, peers: Seq<PeerRow>) -> bool {
    bp.connected == (bp.peer_id matches Some(pid) && find_peer(peers, pid@) matches Some(p)
        && p.connected)
}

/// A point-in-time picture of the node's connectivity.
#[derive(Debug, Clone)]
pub struct NetworkSnapshot {
    pub local_peer_id: String,
    pub role: String,
    pub listen: String,
    pub bootstrap_peers: Vec<BootstrapPeerRow>,
    pub peers: Vec<PeerRow>,
    pub updated_at_ms: u64,
}

impl NetworkSnapshot {
    /// At most one row per peer id.
    pub open spec fn wf(self) -> bool {
        peers_unique(self.peers@)
    }

    /// The known peer with the given id, if any.
    pub open spec fn spec_peer(self, pid: Seq<char>) -> Option<PeerRow> {
        find_peer(self.peers@, pid)
    }

    /// A fresh snapshot for this node: one row per configured bootstrap
    /// peer, paired with the peer id its multiaddr carries (extracted by the
    /// caller), an empty peer table, and the current time.
    pub fn new(config: &Config, local_peer_id: String, bootstrap_peer_ids: Vec<Option<String>>) -> (r:
        NetworkSnapshot)
        requires
            bootstrap_peer_ids@.len() == config.bootstrap_peers@.len(),
        ensures
            r.wf(),
            r.local_peer_id == local_peer_id,
            r.role@ == config.role.spec_str(),
            r.listen == config.listen,
            r.peers@ == Seq::<PeerRow>::empty(),
            r.bootstrap_peers@.len() == config.bootstrap_peers@.len(),
            forall|i: int|
                0 <= i < r.bootstrap_peers@.len() ==> {
                    &&& (#[trigger] r.bootstrap_peers@[i]).multiaddr == config.bootstrap_peers@[i]
                    &&& r.bootstrap_peers@[i].peer_id == bootstrap_peer_ids@[i]
                    &&& r.bootstrap_peers@[i].connected == false
                },
    {
        let n = config.bootstrap_peers.len();
        let mut rows: Vec<BootstrapPeerRow> = Vec::new();
        let mut i: usize = 0;
        while i < n
            invariant
                0 <= i <= n,
                n == config.bootstrap_peers@.len(),
                n == bootstrap_peer_ids@.len(),
                rows@.len() == i,
                forall|k: int|
                    0 <= k < i ==> {
                        &&& (#[trigger] rows@[k]).multiaddr == config.bootstrap_peers@[k]
                        &&& rows@[k].peer_id == bootstrap_peer_ids@[k]
                        &&& rows@[k].connected == false
                    },
            decreases n - i,
        {
            rows.push(
                BootstrapPeerRow {
                    multiaddr: config.bootstrap_peers[i].clone(),
                    peer_id: crate::strutil::clone_opt_string(&bootstrap_peer_ids[i]),
                    connected: false,
                },
            );
            i = i + 1;
        }
        let n0 = now_ms();
        let now_u: u64 = if n0 < 0 {
            0
        } else {
            n0 as u64
        };
        NetworkSnapshot {
            local_peer_id,
            role: String::from_str(config.role.as_str()),
            listen: config.listen.clone(),
            bootstrap_peers: rows,
            peers: Vec::new(),
            updated_at_ms: now_u,
        }
    }

    fn find_peer_index(&self, pid: &str) -> (r: Option<usize>)
        requires
            self.wf(),
        ensures
            match r {
                Option::Some(i) => i < self.peers@.len() && self.peers@[i as int].peer_id@ == pid@
                    && self.spec_peer(pid@) == Some(self.peers@[i as int]),
                Option::None => self.spec_peer(pid@) is None,
            },
    {
        let n = self.peers.len();
        let mut i: usize = 0;
        while i < n
            invariant
                0 <= i <= n,
                n == self.peers@.len(),
                self.wf(),
                forall|j: int| 0 <= j < i ==> self.peers@[j].peer_id@ != pid@,
            decreases n - i,
        {
            if str_eq(self.peers[i].peer_id.as_str(), pid) {
                proof {
                    lemma_find_peer_by_index(self.peers@, pid@, i as int);
                }
                return Option::Some(i);
            }
            i = i + 1;
        }
        proof {
            lemma_find_peer_none(self.peers@, pid@);
        }
        Option::None
    }

    /// Records whether `peer_id` is connected, creating its row on first
    /// sight, and brings the bootstrap flags up to date.
    pub fn set_connected(&mut self, peer_id: String, connected: bool)
        requires
            old(self).wf(),
        ensures
            final(self).wf(),
            final(self).local_peer_id == old(self).local_peer_id,
            final(self).role == old(self).role,
            final(self).listen == old(self).listen,
            forall|pid: Seq<char>|
                pid != peer_id@ ==> final(self).spec_peer(pid) == old(self).spec_peer(pid),
            final(self).spec_peer(peer_id@) matches Some(p) && p.connected == connected
                && p.peer_id@ == peer_id@,
            match old(self).spec_peer(peer_id@) {
                Option::Some(q) => final(self).spec_peer(peer_id@) matches Some(p) && {
                    &&& p.peer_id == q.peer_id
                    &&& p.peer_id@ == peer_id@
                    &&& p.connected == connected
                    &&& p.discovered_via@ == q.discovered_via@
                    &&& p.last_rtt_ms == q.last_rtt_ms
                },
                Option::None => final(self).spec_peer(peer_id@) matches Some(p)
                    && default_peer_row(peer_id@, connected, p),
            },
            forall|i: int|
                0 <= i < final(self).bootstrap_peers@.len() ==> bootstrap_flag_current(
                    #[trigger] final(self).bootstrap_peers@[i],
                    final(self).peers@,
                ) && final(self).bootstrap_peers@[i].multiaddr == old(
                    self,
                ).bootstrap_peers@[i].multiaddr && final(self).bootstrap_peers@[i].peer_id == old(
                    self,
                ).bootstrap_peers@[i].peer_id,
            final(self).bootstrap_peers@.len() == old(self).bootstrap_peers@.len(),
    {
        self.upsert_connected(peer_id, connected);
        self.refresh_bootstrap_connected_flags();
        self.touch();
    }

    fn upsert_connected(&mut self, peer_id: String, connected: bool)
        requires
            old(self).wf(),
        ensures
            final(self).wf(),
            final(self).local_peer_id == old(self).local_peer_id,
            final(self).role == old(self).role,
            final(self).listen == old(self).listen,
            final(self).bootstrap_peers == old(self).bootstrap_peers,
            final(self).updated_at_ms == old(self).updated_at_ms,
            forall|pid: Seq<char>|
                pid != peer_id@ ==> final(self).spec_peer(pid) == old(self).spec_peer(pid),
            match old(self).spec_peer(peer_id@) {
                Option::Some(q) => final(self).spec_peer(peer_id@) matches Some(p) && {
                    &&& p.peer_id == q.peer_id
                    &&& p.peer_id@ == peer_id@
                    &&& p.connected == connected
                    &&& p.discovered_via@ == q.discovered_via@
                    &&& p.last_rtt_ms == q.last_rtt_ms
                },
                Option::None => final(self).spec_peer(peer_id@) matches Some(p)
                    && default_peer_row(peer_id@, connected, p),
            },
    {
        let ghost old_peers = self.peers@;
        match self.find_peer_index(peer_id.as_str()) {
            Option::Some(i) => {
                let row = &self.peers[i];
                let patched = PeerRow {
                    peer_id: row.peer_id.clone(),
                    connected,
                    discovered_via: crate::strutil::clone_string_vec(&row.discovered_via),
                    last_rtt_ms: row.last_rtt_ms,
                };
                self.peers[i] = patched;
                proof {
                    let s = self.peers@;
                    assert(s == old_peers.update(i as int, s[i as int]));
                    assert(peers_unique(s)) by {
                        assert(forall|a: int|
                            0 <= a < s.len() ==> s[a].peer_id@ == old_peers[a].peer_id@);
                    }
                    lemma_find_peer_by_index(s, peer_id@, i as int);
                    assert forall|pid: Seq<char>| pid != peer_id@ implies find_peer(s, pid)
                        == find_peer(old_peers, pid) by {
                        lemma_find_peer_update_frame(old_peers, i as int, s[i as int], pid);
                    }
                }
            },
            Option::None => {
                let fresh = PeerRow {
                    peer_id: peer_id.clone(),
                    connected,
                    discovered_via: Vec::new(),
                    last_rtt_ms: Option::None,
                };
                self.peers.push(fresh);
                proof {
                    let s = self.peers@;
                    assert(s =~= old_peers.push(s[old_peers.len() as int]));
                    assert forall|a: int| 0 <= a < old_peers.len() implies old_peers[a].peer_id@
                        != peer_id@ by {
                        if old_peers[a].peer_id@ == peer_id@ {
                            lemma_find_peer_by_index(old_peers, peer_id@, a);
                        }
                    }
                    assert(peers_unique(s)) by {
                        assert(forall|a: int| 0 <= a < old_peers.len() ==> s[a] == old_peers[a]);
                    }
                    lemma_find_peer_by_index(s, peer_id@, old_peers.len() as int);
                    assert forall|pid: Seq<char>| pid != peer_id@ implies find_peer(s, pid)
                        == find_peer(old_peers, pid) by {
                        lemma_find_peer_push_frame(old_peers, s[old_peers.len() as int], pid);
                    }
                }
            },
        }
    }

    /// Records that `via` reported `peer_id`, creating the peer's row on
    /// first sight; each mechanism is recorded at most once per peer.
    pub fn mark_discovered(&mut self, peer_id: String, via: &str)
        requires
            old(self).wf(),
        ensures
            final(self).wf(),
            final(self).local_peer_id == old(self).local_peer_id,
            final(self).role == old(self).role,
            final(self).listen == old(self).listen,
            final(self).bootstrap_peers == old(self).bootstrap_peers,
            forall|pid: Seq<char>|
                pid != peer_id@ ==> final(self).spec_peer(pid) == old(self).spec_peer(pid),
            final(self).spec_peer(peer_id@) matches Some(p) && p.discovered_via@.map_values(
                |v: String| v@,
            ).contains(via@),
            match old(self).spec_peer(peer_id@) {
                Option::Some(q) => final(self).spec_peer(peer_id@) matches Some(p) && {
                    &&& p.peer_id == q.peer_id
                    &&& p.connected == q.connected
                    &&& p.last_rtt_ms == q.last_rtt_ms
                    &&& if q.discovered_via@.map_values(|v: String| v@).contains(via@) {
                        p.discovered_via@ == q.discovered_via@
                    } else {
                        p.discovered_via@.map_values(|v: String| v@)
                            == q.discovered_via@.map_values(|v: String| v@).push(via@)
                    }
                },
                Option::None => final(self).spec_peer(peer_id@) matches Some(p) && {
                    &&& p.peer_id@ == peer_id@
                    &&& p.connected == false
                    &&& p.last_rtt_ms is None
                    &&& p.discovered_via@.map_values(|v: String| v@) == seq![via@]
                },
            },
    {
        let ghost old_peers = self.peers@;
        match self.find_peer_index(peer_id.as_str()) {
            Option::Some(i) => {
                let row = &self.peers[i];
                let mut vias = crate::strutil::clone_string_vec(&row.discovered_via);
                let mut seen = false;
                let m = vias.len();
                let mut k: usize = 0;
                while k < m
                    invariant
                        0 <= k <= m,
                        m == vias@.len(),
                        seen == exists|a: int| 0 <= a < k && vias@[a]@ == via@,
                    decreases m - k,
                {
                    if str_eq(vias[k].as_str(), via) {
                        seen = true;
                    }
                    k = k + 1;
                }
                let ghost pre_vias = vias@;
                if !seen {
                    vias.push(String::from_str(via));
                }
                proof {
                    if seen {
                        let a = choose|a: int| 0 <= a < m && pre_vias[a]@ == via@;
                        assert(pre_vias.map_values(|v: String| v@)[a] == via@);
                        assert(pre_vias.map_values(|v: String| v@).contains(via@));
                        assert(vias@.map_values(|v: String| v@).contains(via@));
                    } else {
                        let mapped = pre_vias.map_values(|v: String| v@);
                        assert(forall|a: int| 0 <= a < m ==> #[trigger] mapped[a] != via@);
                        assert(!pre_vias.map_values(|v: String| v@).contains(via@));
                        assert(vias@.map_values(|v: String| v@) =~= pre_vias.map_values(
                            |v: String| v@,
                        ).push(via@));
                        assert(vias@.map_values(|v: String| v@)[pre_vias.len() as int] == via@);
                        assert(vias@.map_values(|v: String| v@).contains(via@));
                    }
                }
                let patched = PeerRow {
                    peer_id: row.peer_id.clone(),
                    connected: row.connected,
                    discovered_via: vias,
                    last_rtt_ms: row.last_rtt_ms,
                };
                self.peers[i] = patched;
                proof {
                    let s = self.peers@;
                    assert(s == old_peers.update(i as int, s[i as int]));
                    assert(peers_unique(s)) by {
                        assert(forall|a: int|
                            0 <= a < s.len() ==> s[a].peer_id@ == old_peers[a].peer_id@);
                    }
                    lemma_find_peer_by_index(s, peer_id@, i as int);
                    assert forall|pid: Seq<char>| pid != peer_id@ implies find_peer(s, pid)
                        == find_peer(old_peers, pid) by {
                        lemma_find_peer_update_frame(old_peers, i as int, s[i as int], pid);
                    }
                }
            },
            Option::None => {
                let mut vias: Vec<String> = Vec::new();
                vias.push(String::from_str(via));
                proof {
                    assert(vias@.map_values(|v: String| v@) =~= seq![via@]);
                    assert(vias@.map_values(|v: String| v@)[0] == via@);
                    assert(vias@.map_values(|v: String| v@).contains(via@));
                }
                let fresh = PeerRow {
                    peer_id: peer_id.clone(),
                    connected: false,
                    discovered_via: vias,
                    last_rtt_ms: Option::None,
                };
                self.peers.push(fresh);
                proof {
                    let s = self.peers@;
                    assert(s =~= old_peers.push(s[old_peers.len() as int]));
                    assert forall|a: int| 0 <= a < old_peers.len() implies old_peers[a].peer_id@
                        != peer_id@ by {
                        if old_peers[a].peer_id@ == peer_id@ {
                            lemma_find_peer_by_index(old_peers, peer_id@, a);
                        }
                    }
                    assert(peers_unique(s)) by {
                        assert(forall|a: int| 0 <= a < old_peers.len() ==> s[a] == old_peers[a]);
                    }
                    lemma_find_peer_by_index(s, peer_id@, old_peers.len() as int);
                    assert forall|pid: Seq<char>| pid != peer_id@ implies find_peer(s, pid)
                        == find_peer(old_peers, pid) by {
                        lemma_find_peer_push_frame(old_peers, s[old_peers.len() as int], pid);
                    }
                }
            },
        }
        self.touch();
    }

    /// Records the last measured round-trip time for `peer_id`, creating its
    /// row on first sight.
    pub fn set_rtt_ms(&mut self, peer_id: String, rtt_ms: u64)
        requires
            old(self).wf(),
        ensures
            final(self).wf(),
            final(self).local_peer_id == old(self).local_peer_id,
            final(self).role == old(self).role,
            final(self).listen == old(self).listen,
            final(self).bootstrap_peers == old(self).bootstrap_peers,
            forall|pid: Seq<char>|
                pid != peer_id@ ==> final(self).spec_peer(pid) == old(self).spec_peer(pid),
            match old(self).spec_peer(peer_id@) {
                Option::Some(q) => final(self).spec_peer(peer_id@) matches Some(p) && {
                    &&& p.peer_id == q.peer_id
                    &&& p.connected == q.connected
                    &&& p.discovered_via@ == q.discovered_via@
                    &&& p.last_rtt_ms == Some(rtt_ms)
                },
                Option::None => final(self).spec_peer(peer_id@) matches Some(p) && {
                    &&& p.peer_id@ == peer_id@
                    &&& p.connected == false
                    &&& p.discovered_via@ == Seq::<String>::empty()
                    &&& p.last_rtt_ms == Some(rtt_ms)
                },
            },
    {
        let ghost old_peers = self.peers@;
        match self.find_peer_index(peer_id.as_str()) {
            Option::Some(i) => {
                let row = &self.peers[i];
                let patched = PeerRow {
                    peer_id: row.peer_id.clone(),
                    connected: row.connected,
                    discovered_via: crate::strutil::clone_string_vec(&row.discovered_via),
                    last_rtt_ms: Option::Some(rtt_ms),
                };
                self.peers[i] = patched;
                proof {
                    let s = self.peers@;
                    assert(s == old_peers.update(i as int, s[i as int]));
                    assert(peers_unique(s)) by {
                        assert(forall|a: int|
                            0 <= a < s.len() ==> s[a].peer_id@ == old_peers[a].peer_id@);
                    }
                    lemma_find_peer_by_index(s, peer_id@, i as int);
                    assert forall|pid: Seq<char>| pid != peer_id@ implies find_peer(s, pid)
                        == find_peer(old_peers, pid) by {
                        lemma_find_peer_update_frame(old_peers, i as int, s[i as int], pid);
                    }
                }
            },
            Option::None => {
                let fresh = PeerRow {
                    peer_id: peer_id.clone(),
                    connected: false,
                    discovered_via: Vec::new(),
                    last_rtt_ms: Option::Some(rtt_ms),
                };
                self.peers.push(fresh);
                proof {
                    let s = self.peers@;
                    assert(s =~= old_peers.push(s[old_peers.len() as int]));
                    assert forall|a: int| 0 <= a < old_peers.len() implies old_peers[a].peer_id@
                        != peer_id@ by {
                        if old_peers[a].peer_id@ == peer_id@ {
                            lemma_find_peer_by_index(old_peers, peer_id@, a);
                        }
                    }
                    assert(peers_unique(s)) by {
                        assert(forall|a: int| 0 <= a < old_peers.len() ==> s[a] == old_peers[a]);
                    }
                    lemma_find_peer_by_index(s, peer_id@, old_peers.len() as int);
                    assert forall|pid: Seq<char>| pid != peer_id@ implies find_peer(s, pid)
                        == find_peer(old_peers, pid) by {
                        lemma_find_peer_push_frame(old_peers, s[old_peers.len() as int], pid);
                    }
                }
            },
        }
        self.touch();
    }

    /// Recomputes every bootstrap row's connected flag from the peer table.
    pub fn refresh_bootstrap_connected_flags(&mut self)
        requires
            old(self).wf(),
        ensures
            final(self).wf(),
            final(self).local_peer_id == old(self).local_peer_id,
            final(self).role == old(self).role,
            final(self).listen == old(self).listen,
            final(self).peers == old(self).peers,
            final(self).updated_at_ms == old(self).updated_at_ms,
            final(self).bootstrap_peers@.len() == old(self).bootstrap_peers@.len(),
            forall|i: int|
                0 <= i < final(self).bootstrap_peers@.len() ==> {
                    &&& bootstrap_flag_current(
                        #[trigger] final(self).bootstrap_peers@[i],
                        final(self).peers@,
                    )
                    &&& final(self).bootstrap_peers@[i].multiaddr == old(
                        self,
                    ).bootstrap_peers@[i].multiaddr
                    &&& final(self).bootstrap_peers@[i].peer_id == old(
                        self,
                    ).bootstrap_peers@[i].peer_id
                },
    {
        let n = self.bootstrap_peers.len();
        let mut i: usize = 0;
        while i < n
            invariant
                0 <= i <= n,
                n == self.bootstrap_peers@.len(),
                self.wf(),
                self.local_peer_id == old(self).local_peer_id,
                self.role == old(self).role,
                self.listen == old(self).listen,
                self.peers == old(self).peers,
                self.updated_at_ms == old(self).updated_at_ms,
                self.bootstrap_peers@.len() == old(self).bootstrap_peers@.len(),
                forall|k: int|
                    0 <= k < n ==> (#[trigger] self.bootstrap_peers@[k]).multiaddr == old(
                        self,
                    ).bootstrap_peers@[k].multiaddr && self.bootstrap_peers@[k].peer_id == old(
                        self,
                    ).bootstrap_peers@[k].peer_id,
                forall|k: int|
                    0 <= k < i ==> bootstrap_flag_current(
                        #[trigger] self.bootstrap_peers@[k],
                        self.peers@,
                    ),
            decreases n - i,
        {
            let row = &self.bootstrap_peers[i];
            let flag = match &row.peer_id {
                Option::Some(pid) => {
                    match self.find_peer_index(pid.as_str()) {
                        Option::Some(j) => self.peers[j].connected,
                        Option::None => false,
                    }
                },
                Option::None => false,
            };
            let patched = BootstrapPeerRow {
                multiaddr: self.bootstrap_peers[i].multiaddr.clone(),
                peer_id: crate::strutil::clone_opt_string(&self.bootstrap_peers[i].peer_id),
                connected: flag,
            };
            self.bootstrap_peers[i] = patched;
            i = i + 1;
        }
    }

    /// Stamps the snapshot with the current time.
    pub fn touch(&mut self)
        ensures
            final(self).local_peer_id == old(self).local_peer_id,
            final(self).role == old(self).role,
            final(self).listen == old(self).listen,
            final(self).bootstrap_peers == old(self).bootstrap_peers,
            final(self).peers == old(self).peers,
    {
        let n0 = now_ms();
        self.updated_at_ms = if n0 < 0 {
            0
        } else {
            n0 as u64
        };
    }
}

} // verus!
