//! Aggregate state store: the one mutual-exclusion domain of the dashboard.
//!
//! It owns the log buffer, the peer records, the client set, the readiness
//! flag and the scroll cursor, and updates them atomically per classified
//! line. Its contracts speak over mathematical views: the peers as a map from
//! name to (address, last-seen), the clients as a set of addresses, the log
//! as a sequence of lines.
use vstd::prelude::*;

use crate::classify::{
    StreamSource,
    PeerEvent,
    ClassificationResult,
    classify,
    source_of,
    display_of,
    signals_ready,
    classify_client,
    full_record_of,
    registration_of,
};
use crate::scroll::{NavCommand, spec_max_cursor, spec_navigate, navigate};
use crate::{VIEWPORT_CAPACITY, PAGE_SIZE};

verus! {

/// One discovered peer: its unique name, its address (or the pending
/// sentinel) and when it was last seen, as a Unix timestamp in seconds.
#[derive(Debug)]
pub struct PeerRecord {
    pub name: String,
    pub address: String,
    pub last_seen: i64,
}

/// What the store knows of one peer, at the specification level.
pub ghost struct PeerData {
    pub address: Seq<char>,
    pub last_seen: int,
}

/// Address given to a peer that has only announced its registration: a later
/// full record upgrades it.
pub open spec fn pending_address() -> Seq<char> {
    "Waiting..."@
}

/// The specification-level content of one peer record.
pub open spec fn peer_data_of(r: PeerRecord) -> PeerData {
    PeerData { address: r.address@, last_seen: r.last_seen as int }
}

/// The peer records as a map from peer name to peer data. A later record with
/// the same name shadows an earlier one; the store keeps names unique, so no
/// shadowing ever happens in it.
pub open spec fn peers_view(s: Seq<PeerRecord>) -> Map<Seq<char>, PeerData>
    decreases s.len(),
{
    if s.len() == 0 {
        Map::empty()
    } else {
        peers_view(s.drop_last()).insert(s.last().name@, peer_data_of(s.last()))
    }
}

/// The client list as a set of address strings.
pub open spec fn clients_view(s: Seq<String>) -> Set<Seq<char>>
    decreases s.len(),
{
    if s.len() == 0 {
        Set::empty()
    } else {
        clients_view(s.drop_last()).insert(s.last()@)
    }
}

/// No two peer records share a name.
pub open spec fn peer_names_unique(s: Seq<PeerRecord>) -> bool {
    forall|i: int, j: int| 0 <= i < j < s.len() ==> s[i].name@ != s[j].name@
}

/// No two stored client addresses are equal.
pub open spec fn clients_unique(s: Seq<String>) -> bool {
    forall|i: int, j: int| 0 <= i < j < s.len() ==> s[i]@ != s[j]@
}

/// Effect of a full peer record on the peer map: the peer's address and
/// last-seen time are set, whatever was known before.
pub open spec fn full_record_step(
    m: Map<Seq<char>, PeerData>,
    name: Seq<char>,
    address: Seq<char>,
    now: int,
) -> Map<Seq<char>, PeerData> {
    m.insert(name, PeerData { address, last_seen: now })
}

/// Effect of a registration-only event on the peer map: a placeholder record
/// with the pending address is created for an unknown name; a known peer is
/// left exactly as it was.
pub open spec fn registration_step(
    m: Map<Seq<char>, PeerData>,
    name: Seq<char>,
    now: int,
) -> Map<Seq<char>, PeerData> {
    if m.dom().contains(name) {
        m
    } else {
        m.insert(name, PeerData { address: pending_address(), last_seen: now })
    }
}

/// Effect of one classified line's peer event on the peer map.
pub open spec fn peer_step(
    m: Map<Seq<char>, PeerData>,
    ev: Option<PeerEvent>,
    now: int,
) -> Map<Seq<char>, PeerData> {
    match ev {
        Some(PeerEvent::FullRecord { name, address }) => full_record_step(m, name@, address@, now),
        Some(PeerEvent::RegisteredOnly { name }) => registration_step(m, name@, now),
        None => m,
    }
}

/// Effect of one classified line's client event on the client set.
pub open spec fn client_step(s: Set<Seq<char>>, ev: Option<String>) -> Set<Seq<char>> {
    match ev {
        Some(a) => s.insert(a@),
        None => s,
    }
}

proof fn lemma_peers_view_push(s: Seq<PeerRecord>, r: PeerRecord)
    ensures
        peers_view(s.push(r)) == peers_view(s).insert(r.name@, peer_data_of(r)),
{
    assert(s.push(r).drop_last() =~= s);
    assert(s.push(r).last() == r);
}

proof fn lemma_clients_view_push(s: Seq<String>, c: String)
    ensures
        clients_view(s.push(c)) == clients_view(s).insert(c@),
{
    assert(s.push(c).drop_last() =~= s);
    assert(s.push(c).last() == c);
}

proof fn lemma_peers_view_contains(s: Seq<PeerRecord>, name: Seq<char>)
    ensures
        peers_view(s).dom().contains(name) <==> exists|i: int|
            0 <= i < s.len() && s[i].name@ == name,
    decreases s.len(),
{
    if s.len() == 0 {
    } else {
        lemma_peers_view_contains(s.drop_last(), name);
        if s.last().name@ == name {
            assert(s[s.len() - 1].name@ == name);
        } else {
            if exists|i: int| 0 <= i < s.len() && s[i].name@ == name {
                let i = choose|i: int| 0 <= i < s.len() && s[i].name@ == name;
                assert(i < s.len() - 1);
                assert(s.drop_last()[i].name@ == name);
            }
            if exists|i: int| 0 <= i < s.drop_last().len() && s.drop_last()[i].name@ == name {
                let i = choose|i: int|
                    0 <= i < s.drop_last().len() && s.drop_last()[i].name@ == name;
                assert(s[i].name@ == name);
            }
        }
    }
}

proof fn lemma_clients_view_contains(s: Seq<String>, addr: Seq<char>)
    ensures
        clients_view(s).contains(addr) <==> exists|i: int| 0 <= i < s.len() && s[i]@ == addr,
    decreases s.len(),
{
    if s.len() == 0 {
    } else {
        lemma_clients_view_contains(s.drop_last(), addr);
        if s.last()@ == addr {
            assert(s[s.len() - 1]@ == addr);
        } else {
            if exists|i: int| 0 <= i < s.len() && s[i]@ == addr {
                let i = choose|i: int| 0 <= i < s.len() && s[i]@ == addr;
                assert(i < s.len() - 1);
                assert(s.drop_last()[i]@ == addr);
            }
            if exists|i: int| 0 <= i < s.drop_last().len() && s.drop_last()[i]@ == addr {
                let i = choose|i: int| 0 <= i < s.drop_last().len() && s.drop_last()[i]@ == addr;
                assert(s[i]@ == addr);
            }
        }
    }
}

proof fn lemma_unique_drop_last(s: Seq<PeerRecord>)
    requires
        peer_names_unique(s),
        s.len() > 0,
    ensures
        peer_names_unique(s.drop_last()),
{
    assert forall|i: int, j: int| 0 <= i < j < s.drop_last().len() implies s.drop_last()[i].name@
        != s.drop_last()[j].name@ by {
        assert(s.drop_last()[i] == s[i]);
        assert(s.drop_last()[j] == s[j]);
    }
}

proof fn lemma_peers_view_update(s: Seq<PeerRecord>, k: int, r: PeerRecord)
    requires
        0 <= k < s.len(),
        s[k].name@ == r.name@,
        peer_names_unique(s),
    ensures
        peers_view(s.update(k, r)) == peers_view(s).insert(r.name@, peer_data_of(r)),
    decreases s.len(),
{
    let s2 = s.update(k, r);
    if k == s.len() - 1 {
        assert(s2.drop_last() =~= s.drop_last());
        assert(s2.last() == r);
        assert(peers_view(s.drop_last()).insert(s.last().name@, peer_data_of(s.last())).insert(
            r.name@,
            peer_data_of(r),
        ) =~= peers_view(s.drop_last()).insert(r.name@, peer_data_of(r)));
    } else {
        lemma_unique_drop_last(s);
        assert(s2.drop_last() =~= s.drop_last().update(k, r));
        assert(s2.last() == s.last());
        lemma_peers_view_update(s.drop_last(), k, r);
        assert(s[k].name@ != s.last().name@);
        assert(peers_view(s.drop_last()).insert(r.name@, peer_data_of(r)).insert(
            s.last().name@,
            peer_data_of(s.last()),
        ) =~= peers_view(s.drop_last()).insert(s.last().name@, peer_data_of(s.last())).insert(
            r.name@,
            peer_data_of(r),
        ));
    }
}

proof fn lemma_peers_view_index(s: Seq<PeerRecord>, i: int)
    requires
        0 <= i < s.len(),
        peer_names_unique(s),
    ensures
        peers_view(s).dom().contains(s[i].name@),
        peers_view(s)[s[i].name@] == peer_data_of(s[i]),
    decreases s.len(),
{
    if i == s.len() - 1 {
    } else {
        lemma_unique_drop_last(s);
        assert(s.drop_last()[i] == s[i]);
        lemma_peers_view_index(s.drop_last(), i);
        assert(s.last().name@ != s[i].name@);
    }
}

/// The whole mutable state of the dashboard: log buffer, peer records, client
/// set, readiness flag, scroll cursor and quit flag. All of it is meant to
/// live behind one lock; each mutating method is one critical section's worth
/// of work.
#[derive(Debug)]
pub struct App {
    pub logs: Vec<String>,
    pub peers: Vec<PeerRecord>,
    pub clients: Vec<String>,
    pub server_ready: bool,
    pub scroll_position: usize,
    pub should_quit: bool,
}

impl App {
    /// The log buffer as a sequence of lines.
    pub open spec fn logs_view(self) -> Seq<Seq<char>> {
        self.logs@.map_values(|l: String| l@)
    }

    /// The peer records as a map from name to peer data.
    pub open spec fn peers_map(self) -> Map<Seq<char>, PeerData> {
        peers_view(self.peers@)
    }

    /// The client list as a set of addresses.
    pub open spec fn clients_set(self) -> Set<Seq<char>> {
        clients_view(self.clients@)
    }

    /// Well-formedness: peer names and client addresses are unique, and the
    /// scroll cursor never runs past the last full page of the log.
    pub open spec fn wf(self) -> bool {
        &&& peer_names_unique(self.peers@)
        &&& clients_unique(self.clients@)
        &&& self.scroll_position as int <= spec_max_cursor(
            self.logs@.len() as int,
            VIEWPORT_CAPACITY as int,
        )
    }

    /// A fresh, empty store: nothing logged, no peers, no clients, not ready,
    /// cursor at the top, not quitting.
    pub fn new() -> (r: App)
        ensures
            r.wf(),
            r.logs_view() == Seq::<Seq<char>>::empty(),
            r.peers_map() == Map::<Seq<char>, PeerData>::empty(),
            r.clients_set() == Set::<Seq<char>>::empty(),
            !r.server_ready,
            r.scroll_position == 0,
            !r.should_quit,
    {
        let r = App {
            logs: Vec::new(),
            peers: Vec::new(),
            clients: Vec::new(),
            server_ready: false,
            scroll_position: 0,
            should_quit: false,
        };
        proof {
            assert(r.logs_view() =~= Seq::<Seq<char>>::empty());
        }
        r
    }

    /// Upsert a peer from a full record: address and last-seen are
    /// overwritten, whatever was stored for that name before.
    fn upsert_full(&mut self, name: String, address: String, now: i64)
        requires
            peer_names_unique(old(self).peers@),
        ensures
            peer_names_unique(final(self).peers@),
            peers_view(final(self).peers@) == full_record_step(
                peers_view(old(self).peers@),
                name@,
                address@,
                now as int,
            ),
            final(self).logs == old(self).logs,
            final(self).clients == old(self).clients,
            final(self).server_ready == old(self).server_ready,
            final(self).scroll_position == old(self).scroll_position,
            final(self).should_quit == old(self).should_quit,
    {
        let n = self.peers.len();
        let mut i: usize = 0;
        while i < n
            invariant
                i <= n,
                *self == *old(self),
                n == self.peers.len(),
                peer_names_unique(self.peers@),
                forall|t: int| 0 <= t < i ==> self.peers@[t].name@ != name@,
            decreases n - i,
        {
            if self.peers[i].name == name {
                let rec = PeerRecord { name, address, last_seen: now };
                self.peers.set(i, rec);
                proof {
                    lemma_peers_view_update(old(self).peers@, i as int, rec);
                    assert forall|a: int, b: int|
                        0 <= a < b < self.peers@.len() implies self.peers@[a].name@
                        != self.peers@[b].name@ by {
                        assert(old(self).peers@[a].name@ != old(self).peers@[b].name@);
                    }
                }
                return ;
            }
            i += 1;
        }
        let rec = PeerRecord { name, address, last_seen: now };
        self.peers.push(rec);
        proof {
            lemma_peers_view_push(old(self).peers@, rec);
            assert forall|a: int, b: int| 0 <= a < b < self.peers@.len() implies self.peers@[a].name@
                != self.peers@[b].name@ by {
                if b == self.peers@.len() - 1 {
                    assert(self.peers@[a].name@ != name@);
                } else {
                    assert(old(self).peers@[a].name@ != old(self).peers@[b].name@);
                }
            }
        }
    }

    /// Register a peer by name only: an unknown name gets a placeholder
    /// record with the pending address; a known peer is left untouched.
    fn register_pending(&mut self, name: String, now: i64)
        requires
            peer_names_unique(old(self).peers@),
        ensures
            peer_names_unique(final(self).peers@),
            peers_view(final(self).peers@) == registration_step(
                peers_view(old(self).peers@),
                name@,
                now as int,
            ),
            final(self).logs == old(self).logs,
            final(self).clients == old(self).clients,
            final(self).server_ready == old(self).server_ready,
            final(self).scroll_position == old(self).scroll_position,
            final(self).should_quit == old(self).should_quit,
    {
        let n = self.peers.len();
        let mut i: usize = 0;
        while i < n
            invariant
                i <= n,
                *self == *old(self),
                n == self.peers.len(),
                peer_names_unique(self.peers@),
                forall|t: int| 0 <= t < i ==> self.peers@[t].name@ != name@,
            decreases n - i,
        {
            if self.peers[i].name == name {
                proof {
                    lemma_peers_view_contains(self.peers@, name@);
                }
                return ;
            }
            i += 1;
        }
        proof {
            lemma_peers_view_contains(self.peers@, name@);
        }
        let rec = PeerRecord { name, address: String::from_str("Waiting..."), last_seen: now };
        self.peers.push(rec);
        proof {
            lemma_peers_view_push(old(self).peers@, rec);
            assert forall|a: int, b: int| 0 <= a < b < self.peers@.len() implies self.peers@[a].name@
                != self.peers@[b].name@ by {
                if b == self.peers@.len() - 1 {
                    assert(self.peers@[a].name@ != name@);
                } else {
                    assert(old(self).peers@[a].name@ != old(self).peers@[b].name@);
                }
            }
        }
    }

    /// Insert a client address, keeping the list duplicate-free.
    fn insert_client(&mut self, addr: String)
        requires
            clients_unique(old(self).clients@),
        ensures
            clients_unique(final(self).clients@),
            clients_view(final(self).clients@) == clients_view(old(self).clients@).insert(addr@),
            final(self).logs == old(self).logs,
            final(self).peers == old(self).peers,
            final(self).server_ready == old(self).server_ready,
            final(self).scroll_position == old(self).scroll_position,
            final(self).should_quit == old(self).should_quit,
    {
        let n = self.clients.len();
        let mut i: usize = 0;
        while i < n
            invariant
                i <= n,
                *self == *old(self),
                n == self.clients.len(),
                clients_unique(self.clients@),
                forall|t: int| 0 <= t < i ==> self.clients@[t]@ != addr@,
            decreases n - i,
        {
            if self.clients[i] == addr {
                proof {
                    lemma_clients_view_contains(self.clients@, addr@);
                    assert(clients_view(self.clients@).insert(addr@) =~= clients_view(
                        self.clients@,
                    ));
                }
                return ;
            }
            i += 1;
        }
        self.clients.push(addr);
        proof {
            lemma_clients_view_push(old(self).clients@, addr);
            assert forall|a: int, b: int| 0 <= a < b < self.clients@.len() implies self.clients@[a]@
                != self.clients@[b]@ by {
                if b == self.clients@.len() - 1 {
                    assert(self.clients@[a]@ != addr@);
                } else {
                    assert(old(self).clients@[a]@ != old(self).clients@[b]@);
                }
            }
        }
    }

    /// Apply one classified line to the store, atomically: upsert the peer,
    /// insert the client, latch the readiness flag, append the display line,
    /// and snap the scroll cursor to the newest page.
    pub fn apply(&mut self, r: ClassificationResult, now: i64)
        requires
            old(self).wf(),
        ensures
            final(self).wf(),
            final(self).logs_view() == old(self).logs_view().push(r.display@),
            final(self).peers_map() == peer_step(old(self).peers_map(), r.peer, now as int),
            final(self).clients_set() == client_step(old(self).clients_set(), r.client),
            final(self).server_ready == (old(self).server_ready || r.ready),
            final(self).scroll_position as int == spec_max_cursor(
                final(self).logs_view().len() as int,
                VIEWPORT_CAPACITY as int,
            ),
            final(self).should_quit == old(self).should_quit,
    {
        let ClassificationResult { peer, client, ready, display } = r;
        match peer {
            Some(PeerEvent::FullRecord { name, address }) => self.upsert_full(name, address, now),
            Some(PeerEvent::RegisteredOnly { name }) => self.register_pending(name, now),
            None => {},
        }
        match client {
            Some(a) => self.insert_client(a),
            None => {},
        }
        if ready {
            self.server_ready = true;
        }
        let ghost logs_before = self.logs@;
        self.logs.push(display);
        proof {
            assert(self.logs@.map_values(|l: String| l@) =~= logs_before.map_values(
                |l: String| l@,
            ).push(r.display@));
        }
        let len = self.logs.len();
        if len > VIEWPORT_CAPACITY {
            self.scroll_position = len - VIEWPORT_CAPACITY;
        } else {
            self.scroll_position = 0;
        }
    }

    /// Classify one raw line from the child and apply it, stamping any peer
    /// event with the current wall-clock time.
    pub fn process_log(&mut self, raw_line: String, is_stderr: bool)
        requires
            old(self).wf(),
        ensures
            final(self).wf(),
            final(self).logs_view() == old(self).logs_view().push(
                display_of(raw_line@, source_of(is_stderr)),
            ),
            final(self).server_ready == (old(self).server_ready || signals_ready(raw_line@)),
            final(self).clients_set() == match classify_client(raw_line@) {
                Some(a) => old(self).clients_set().insert(a),
                None => old(self).clients_set(),
            },
            match full_record_of(raw_line@) {
                Some(m) => exists|ts: int|
                    final(self).peers_map() == full_record_step(
                        old(self).peers_map(),
                        m.0,
                        m.1,
                        ts,
                    ),
                None => match registration_of(raw_line@) {
                    Some(nm) => exists|ts: int|
                        final(self).peers_map() == registration_step(old(self).peers_map(), nm, ts),
                    None => final(self).peers_map() == old(self).peers_map(),
                },
            },
            final(self).scroll_position as int == spec_max_cursor(
                final(self).logs_view().len() as int,
                VIEWPORT_CAPACITY as int,
            ),
            final(self).should_quit == old(self).should_quit,
    {
        let source = if is_stderr {
            StreamSource::Secondary
        } else {
            StreamSource::Primary
        };
        let r = classify(raw_line.as_str(), source);
        let now = now_seconds();
        self.apply(r, now);
        proof {
            match full_record_of(raw_line@) {
                Some(m) => {
                    assert(self.peers_map() == full_record_step(
                        old(self).peers_map(),
                        m.0,
                        m.1,
                        now as int,
                    ));
                },
                None => {
                    match registration_of(raw_line@) {
                        Some(nm) => {
                            assert(self.peers_map() == registration_step(
                                old(self).peers_map(),
                                nm,
                                now as int,
                            ));
                        },
                        None => {},
                    }
                },
            }
        }
    }

    /// Apply one navigation command to the scroll cursor; the rest of the
    /// state is untouched.
    pub fn navigate(&mut self, cmd: NavCommand)
        requires
            old(self).wf(),
        ensures
            final(self).wf(),
            final(self).scroll_position as int == spec_navigate(
                old(self).logs@.len() as int,
                VIEWPORT_CAPACITY as int,
                PAGE_SIZE as int,
                old(self).scroll_position as int,
                cmd,
            ),
            final(self).logs == old(self).logs,
            final(self).peers == old(self).peers,
            final(self).clients == old(self).clients,
            final(self).server_ready == old(self).server_ready,
            final(self).should_quit == old(self).should_quit,
    {
        let total = self.logs.len();
        self.scroll_position = navigate(
            total,
            VIEWPORT_CAPACITY,
            PAGE_SIZE,
            self.scroll_position,
            cmd,
        );
    }

    /// Move the view up by one line.
    pub fn scroll_up(&mut self)
        requires
            old(self).wf(),
        ensures
            final(self).wf(),
            final(self).scroll_position as int == spec_navigate(
                old(self).logs@.len() as int,
                VIEWPORT_CAPACITY as int,
                PAGE_SIZE as int,
                old(self).scroll_position as int,
                NavCommand::LineUp,
            ),
            final(self).logs == old(self).logs,
            final(self).peers == old(self).peers,
            final(self).clients == old(self).clients,
            final(self).server_ready == old(self).server_ready,
            final(self).should_quit == old(self).should_quit,
    {
        self.navigate(NavCommand::LineUp);
    }

    /// Move the view down by one line.
    pub fn scroll_down(&mut self)
        requires
            old(self).wf(),
        ensures
            final(self).wf(),
            final(self).scroll_position as int == spec_navigate(
                old(self).logs@.len() as int,
                VIEWPORT_CAPACITY as int,
                PAGE_SIZE as int,
                old(self).scroll_position as int,
                NavCommand::LineDown,
            ),
            final(self).logs == old(self).logs,
            final(self).peers == old(self).peers,
            final(self).clients == old(self).clients,
            final(self).server_ready == old(self).server_ready,
            final(self).should_quit == old(self).should_quit,
    {
        self.navigate(NavCommand::LineDown);
    }

    /// Move the view up by one page.
    pub fn scroll_page_up(&mut self)
        requires
            old(self).wf(),
        ensures
            final(self).wf(),
            final(self).scroll_position as int == spec_navigate(
                old(self).logs@.len() as int,
                VIEWPORT_CAPACITY as int,
                PAGE_SIZE as int,
                old(self).scroll_position as int,
                NavCommand::PageUp,
            ),
            final(self).logs == old(self).logs,
            final(self).peers == old(self).peers,
            final(self).clients == old(self).clients,
            final(self).server_ready == old(self).server_ready,
            final(self).should_quit == old(self).should_quit,
    {
        self.navigate(NavCommand::PageUp);
    }

    /// Move the view down by one page.
    pub fn scroll_page_down(&mut self)
        requires
            old(self).wf(),
        ensures
            final(self).wf(),
            final(self).scroll_position as int == spec_navigate(
                old(self).logs@.len() as int,
                VIEWPORT_CAPACITY as int,
                PAGE_SIZE as int,
                old(self).scroll_position as int,
                NavCommand::PageDown,
            ),
            final(self).logs == old(self).logs,
            final(self).peers == old(self).peers,
            final(self).clients == old(self).clients,
            final(self).server_ready == old(self).server_ready,
            final(self).should_quit == old(self).should_quit,
    {
        self.navigate(NavCommand::PageDown);
    }

    /// Jump to the top of the log.
    pub fn scroll_to_top(&mut self)
        requires
            old(self).wf(),
        ensures
            final(self).wf(),
            final(self).scroll_position == 0,
            final(self).logs == old(self).logs,
            final(self).peers == old(self).peers,
            final(self).clients == old(self).clients,
            final(self).server_ready == old(self).server_ready,
            final(self).should_quit == old(self).should_quit,
    {
        self.navigate(NavCommand::Home);
    }

    /// Jump to the bottom of the log.
    pub fn scroll_to_bottom(&mut self)
        requires
            old(self).wf(),
        ensures
            final(self).wf(),
            final(self).scroll_position as int == spec_max_cursor(
                old(self).logs@.len() as int,
                VIEWPORT_CAPACITY as int,
            ),
            final(self).logs == old(self).logs,
            final(self).peers == old(self).peers,
            final(self).clients == old(self).clients,
            final(self).server_ready == old(self).server_ready,
            final(self).should_quit == old(self).should_quit,
    {
        self.navigate(NavCommand::End);
    }

    /// Ask the dashboard to shut down; nothing else changes.
    pub fn request_quit(&mut self)
        ensures
            final(self).should_quit,
            final(self).logs == old(self).logs,
            final(self).peers == old(self).peers,
            final(self).clients == old(self).clients,
            final(self).server_ready == old(self).server_ready,
            final(self).scroll_position == old(self).scroll_position,
    {
        self.should_quit = true;
    }

    /// The stored address of the named peer, if the peer is known.
    pub fn peer_address(&self, name: &str) -> (r: Option<String>)
        requires
            peer_names_unique(self.peers@),
        ensures
            match r {
                Some(a) => self.peers_map().dom().contains(name@) && self.peers_map()[name@].address
                    == a@,
                None => !self.peers_map().dom().contains(name@),
            },
    {
        let n = self.peers.len();
        let mut i: usize = 0;
        while i < n
            invariant
                i <= n,
                n == self.peers.len(),
                peer_names_unique(self.peers@),
                forall|t: int| 0 <= t < i ==> self.peers@[t].name@ != name@,
            decreases n - i,
        {
            if crate::text::str_eq(self.peers[i].name.as_str(), name) {
                proof {
                    lemma_peers_view_index(self.peers@, i as int);
                }
                return Some(self.peers[i].address.clone());
            }
            i += 1;
        }
        proof {
            lemma_peers_view_contains(self.peers@, name@);
        }
        None
    }

    /// Has the given client address been seen?
    pub fn has_client(&self, addr: &str) -> (r: bool)
        ensures
            r == self.clients_set().contains(addr@),
    {
        let n = self.clients.len();
        let mut i: usize = 0;
        while i < n
            invariant
                i <= n,
                n == self.clients.len(),
                forall|t: int| 0 <= t < i ==> self.clients@[t]@ != addr@,
            decreases n - i,
        {
            if crate::text::str_eq(self.clients[i].as_str(), addr) {
                proof {
                    lemma_clients_view_contains(self.clients@, addr@);
                }
                return true;
            }
            i += 1;
        }
        proof {
            lemma_clients_view_contains(self.clients@, addr@);
        }
        false
    }

    /// A read-consistent copy of the whole state for the render loop.
    pub fn snapshot(&self) -> (r: Snapshot)
        ensures
            r.logs@ == self.logs@,
            r.peers@ == self.peers@,
            r.clients@ == self.clients@,
            r.server_ready == self.server_ready,
            r.scroll_position == self.scroll_position,
    {
        Snapshot {
            logs: clone_strings(&self.logs),
            peers: clone_peers(&self.peers),
            clients: clone_strings(&self.clients),
            server_ready: self.server_ready,
            scroll_position: self.scroll_position,
        }
    }
}

/// A point-in-time copy of the store, for rendering outside the lock.
#[derive(Debug)]
pub struct Snapshot {
    pub logs: Vec<String>,
    pub peers: Vec<PeerRecord>,
    pub clients: Vec<String>,
    pub server_ready: bool,
    pub scroll_position: usize,
}

fn clone_strings(v: &Vec<String>) -> (r: Vec<String>)
    ensures
        r@ == v@,
{
    let n = v.len();
    let mut r: Vec<String> = Vec::new();
    let mut i: usize = 0;
    while i < n
        invariant
            i <= n,
            n == v.len(),
            r@ == v@.take(i as int),
        decreases n - i,
    {
        r.push(v[i].clone());
        proof {
            assert(v@.take(i + 1) =~= v@.take(i as int).push(v@[i as int]));
        }
        i += 1;
    }
    proof {
        assert(v@.take(n as int) =~= v@);
    }
    r
}

fn clone_peers(v: &Vec<PeerRecord>) -> (r: Vec<PeerRecord>)
    ensures
        r@ == v@,
{
    let n = v.len();
    let mut r: Vec<PeerRecord> = Vec::new();
    let mut i: usize = 0;
    while i < n
        invariant
            i <= n,
            n == v.len(),
            r@ == v@.take(i as int),
        decreases n - i,
    {
        let rec = PeerRecord {
            name: v[i].name.clone(),
            address: v[i].address.clone(),
            last_seen: v[i].last_seen,
        };
        r.push(rec);
        proof {
            assert(rec == v@[i as int]);
            assert(v@.take(i + 1) =~= v@.take(i as int).push(v@[i as int]));
        }
        i += 1;
    }
    proof {
        assert(v@.take(n as int) =~= v@);
    }
    r
}

/// Relies on chrono's `Local::now` for the wall-clock time, read once per
/// classified line and converted to Unix seconds by `DateTime::timestamp`.
/// Nothing is assumed of the returned value.
#[verifier::external_body]
fn now_seconds() -> i64 {
    chrono::Local::now().timestamp()
}

} // verus!
