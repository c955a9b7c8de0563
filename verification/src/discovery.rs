//! The other hosts of the network: who they are, how they announce
//! themselves, and the registry of those that were seen.

use crate::table::{
    distinct_keys, first_keyed, keyed, lemma_first_keyed, lemma_keyed, lemma_keyed_push,
    lemma_keyed_remove, lemma_keyed_take, lemma_keyed_update, lemma_none_keyed,
    lemma_remove_is_without, lemma_without_absent, lists, placed, still_held, without, HasKey,
};
use crate::text::{
    bytes_of_char, decimal, decimal_text, is_alphabetic_or_numeric, number_in, opt_view,
    parse_decimal, same, text_bytes, to_chars, views,
};
use crate::time::{utc_now, Timestamp};
use vstd::prelude::*;

verus! {

/// The service under which hosts announce themselves.
pub const SERVICE_TYPE: &'static str = "_fileshare._tcp.local.";

/// The seconds after which a host that was not seen again is forgotten.
pub const PEER_TIMEOUT_SECS: i64 = 15;

/// The seconds between two announcements.
pub const ANNOUNCE_INTERVAL_SECS: u64 = 3;

/// The seconds between two rounds of forgetting hosts.
pub const PRUNE_INTERVAL_SECS: u64 = 5;

/// The name of the program in announcements.
pub const APP_ID: &'static str = "fileshare";

/// The version of the protocol in announcements.
pub const PROTOCOL_VERSION: &'static str = "1";

// ---------------------------------------------------------------------------
// Peers
// ---------------------------------------------------------------------------

/// Another host. Its address is the text that stands for it in a URL.
#[derive(Debug)]
pub struct Peer {
    pub username: String,
    pub addr: String,
    pub port: u16,
    pub share_count: usize,
    pub last_seen: Timestamp,
    pub manual: bool,
}

/// A peer in mathematical terms.
pub struct PeerView {
    pub username: Seq<char>,
    pub addr: Seq<char>,
    pub port: u16,
    pub share_count: usize,
    pub last_seen: Timestamp,
    pub manual: bool,
}

impl View for Peer {
    type V = PeerView;

    open spec fn view(&self) -> PeerView {
        PeerView {
            username: self.username@,
            addr: self.addr@,
            port: self.port,
            share_count: self.share_count,
            last_seen: self.last_seen,
            manual: self.manual,
        }
    }
}

impl HasKey for PeerView {
    open spec fn key(self) -> Seq<char> {
        endpoint_text(self.addr, self.port)
    }
}

/// An address and a port as one text.
pub open spec fn endpoint_text(addr: Seq<char>, port: u16) -> Seq<char> {
    addr + ":"@ + decimal_text(port as nat)
}

/// An address and a port as one text.
pub fn endpoint(addr: &str, port: u16) -> (r: String)
    ensures
        r@ == endpoint_text(addr@, port),
{
    let mut out = addr.to_owned();
    out.append(":");
    out.append(decimal(port as u64).as_str());
    out
}

impl PeerView {
    /// Whether the peer was not seen for too long at `now`. One that was
    /// entered by hand is kept whatever its age.
    pub open spec fn stale_at(self, now: Timestamp) -> bool {
        !self.manual && now.seconds_since_spec(self.last_seen) > PEER_TIMEOUT_SECS
    }

    /// The URL that all requests to the peer start with.
    pub open spec fn base_url(self) -> Seq<char> {
        "https://"@ + self.addr + ":"@ + decimal_text(self.port as nat)
    }
}

impl Clone for Peer {
    fn clone(&self) -> (r: Peer)
        ensures
            r@ == self@,
    {
        Peer {
            username: self.username.clone(),
            addr: self.addr.clone(),
            port: self.port,
            share_count: self.share_count,
            last_seen: self.last_seen,
            manual: self.manual,
        }
    }
}

impl Peer {
    /// The URL that all requests to the peer start with.
    pub fn http_base(&self) -> (r: String)
        ensures
            r@ == self@.base_url(),
    {
        let mut out = "https://".to_owned();
        out.append(self.addr.as_str());
        out.append(":");
        out.append(decimal(self.port as u64).as_str());
        out
    }

    /// Whether the peer was not seen for too long at `now`.
    pub fn is_stale_at(&self, now: &Timestamp) -> (r: bool)
        ensures
            r == self@.stale_at(*now),
    {
        if self.manual {
            return false;
        }
        now.seconds_since(&self.last_seen) > PEER_TIMEOUT_SECS as i128
    }

    /// Whether the peer was not seen for too long by now.
    pub fn is_stale(&self) -> (r: bool)
        ensures
            self@.manual ==> !r,
            exists|now: Timestamp| now.wf() && now.secs >= 0 && r == #[trigger] self@.stale_at(now),
    {
        let now = utc_now();
        assert(now.wf() && now.secs >= 0);
        self.is_stale_at(&now)
    }
}

// ---------------------------------------------------------------------------
// The registry
// ---------------------------------------------------------------------------

/// The peers that are known.
pub struct PeerRegistry {
    peers: Vec<Peer>,
}

impl View for PeerRegistry {
    type V = Map<Seq<char>, PeerView>;

    closed spec fn view(&self) -> Map<Seq<char>, PeerView> {
        keyed(views(self.peers@))
    }
}

/// The peers of `m` that are not stale at `now`.
pub open spec fn fresh_peers(m: Map<Seq<char>, PeerView>, now: Timestamp) -> Map<
    Seq<char>,
    PeerView,
> {
    m.restrict(m.dom().filter(|k: Seq<char>| !m[k].stale_at(now)))
}

/// A peer that announced itself at `now`.
pub open spec fn announced(
    m: Map<Seq<char>, PeerView>,
    addr: Seq<char>,
    port: u16,
    username: Seq<char>,
    share_count: usize,
    now: Timestamp,
) -> PeerView {
    let k = endpoint_text(addr, port);
    PeerView {
        username,
        addr,
        port,
        share_count,
        last_seen: now,
        manual: m.dom().contains(k) && m[k].manual,
    }
}

/// A peer that was entered by hand at `now`.
pub open spec fn entered(addr: Seq<char>, port: u16, now: Timestamp) -> PeerView {
    PeerView {
        username: endpoint_text(addr, port),
        addr,
        port,
        share_count: 0,
        last_seen: now,
        manual: true,
    }
}

/// The peers after one announced itself at `now`.
pub open spec fn with_announced(
    m: Map<Seq<char>, PeerView>,
    addr: Seq<char>,
    port: u16,
    username: Seq<char>,
    share_count: usize,
    now: Timestamp,
) -> Map<Seq<char>, PeerView> {
    m.insert(
        endpoint_text(addr, port),
        announced(m, addr, port, username, share_count, now),
    )
}

/// The peers after one was entered by hand at `now`.
pub open spec fn with_entered(
    m: Map<Seq<char>, PeerView>,
    addr: Seq<char>,
    port: u16,
    now: Timestamp,
) -> Map<Seq<char>, PeerView> {
    m.insert(endpoint_text(addr, port), entered(addr, port, now))
}

/// The peers without the one at an address and port.
pub open spec fn without_peer(m: Map<Seq<char>, PeerView>, addr: Seq<char>, port: u16) -> Map<
    Seq<char>,
    PeerView,
> {
    m.remove(endpoint_text(addr, port))
}

impl PeerRegistry {
    /// Whether every peer stands in the registry once.
    pub closed spec fn wf(&self) -> bool {
        distinct_keys(views(self.peers@))
    }

    /// The peers in the order in which they are listed.
    pub closed spec fn listed(&self) -> Seq<PeerView> {
        views(self.peers@)
    }

    /// What is listed is what the registry holds.
    pub proof fn lemma_listed_is_held(&self)
        requires
            self.wf(),
        ensures
            lists(self.listed(), self@),
    {
        lemma_keyed(views(self.peers@));
    }

    /// A registry without peers.
    pub fn new() -> (r: PeerRegistry)
        ensures
            r.wf(),
            r@ == Map::<Seq<char>, PeerView>::empty(),
            r.listed() == Seq::<PeerView>::empty(),
    {
        let r = PeerRegistry { peers: Vec::new() };
        assert(views(r.peers@) =~= Seq::<PeerView>::empty());
        r
    }

    /// The place of the peer with an address and port.
    fn position(&self, addr: &str, port: u16) -> (r: Option<usize>)
        requires
            self.wf(),
        ensures
            match r {
                Some(i) => i < self.peers@.len() && self.peers@[i as int]@.key() == endpoint_text(
                    addr@,
                    port,
                ) && self@.dom().contains(endpoint_text(addr@, port)) && self@[endpoint_text(
                    addr@,
                    port,
                )] == self.peers@[i as int]@,
                None => !self@.dom().contains(endpoint_text(addr@, port)) && forall|i: int|
                    0 <= i < self.peers@.len() ==> #[trigger] views(self.peers@)[i].key()
                        != endpoint_text(addr@, port),
            },
    {
        let key = endpoint(addr, port);
        let ghost s = views(self.peers@);
        proof {
            lemma_keyed(s);
        }
        let mut i: usize = 0;
        while i < self.peers.len()
            invariant
                i <= self.peers@.len(),
                s == views(self.peers@),
                lists(s, self@),
                key@ == endpoint_text(addr@, port),
                forall|j: int| 0 <= j < i ==> #[trigger] s[j].key() != key@,
            decreases self.peers@.len() - i,
        {
            let p = &self.peers[i];
            let k = endpoint(p.addr.as_str(), p.port);
            assert(s[i as int].key() == k@);
            if same(k.as_str(), key.as_str()) {
                return Some(i);
            }
            i += 1;
        }
        None
    }

    /// Puts a peer into the registry, in the place of one with its address
    /// and port.
    fn put(&mut self, peer: Peer)
        requires
            old(self).wf(),
        ensures
            final(self).wf(),
            final(self)@ == old(self)@.insert(peer@.key(), peer@),
            final(self).listed() == placed(old(self).listed(), peer@),
    {
        broadcast use crate::text::group_views;

        let ghost before = views(self.peers@);
        let ghost x = peer@;
        match self.position(peer.addr.as_str(), peer.port) {
            Some(i) => {
                proof {
                    assert(before[i as int].key() == x.key());
                    lemma_keyed_update(before, i as int, x);
                    lemma_first_keyed(before, x.key());
                    let j = first_keyed(before, x.key());
                    assert(j is Some);
                    if j->0 != i {
                        assert(before[j->0].key() == before[i as int].key());
                    }
                }
                self.peers.set(i, peer);
            },
            None => {
                proof {
                    lemma_keyed_push(before, x);
                    lemma_none_keyed(before, x.key());
                }
                self.peers.push(peer);
            },
        }
    }

    /// Notes that a peer announced itself at `now`. One that was entered by
    /// hand stays so.
    pub fn upsert_at(
        &mut self,
        addr: String,
        port: u16,
        username: String,
        share_count: usize,
        now: &Timestamp,
    )
        requires
            old(self).wf(),
        ensures
            final(self).wf(),
            final(self)@ == old(self)@.insert(
                endpoint_text(addr@, port),
                announced(old(self)@, addr@, port, username@, share_count, *now),
            ),
            final(self)@ == with_announced(
                old(self)@,
                addr@,
                port,
                username@,
                share_count,
                *now,
            ),
            final(self).listed() == placed(
                old(self).listed(),
                announced(old(self)@, addr@, port, username@, share_count, *now),
            ),
    {
        let manual = match self.position(addr.as_str(), port) {
            Some(i) => self.peers[i].manual,
            None => false,
        };
        self.put(Peer { username, addr, port, share_count, last_seen: *now, manual });
    }

    /// Notes that a peer announced itself now.
    pub fn upsert(&mut self, addr: String, port: u16, username: String, share_count: usize)
        requires
            old(self).wf(),
        ensures
            final(self).wf(),
            exists|now: Timestamp|
                now.wf() && now.secs >= 0 && final(self)@ == old(self)@.insert(
                    endpoint_text(addr@, port),
                    #[trigger] announced(old(self)@, addr@, port, username@, share_count, now),
                ) && final(self).listed() == placed(
                    old(self).listed(),
                    announced(old(self)@, addr@, port, username@, share_count, now),
                ),
    {
        let now = utc_now();
        self.upsert_at(addr, port, username, share_count, &now);
    }

    /// Takes in a peer that was entered by hand at `now`.
    pub fn add_manual_at(&mut self, addr: String, port: u16, now: &Timestamp)
        requires
            old(self).wf(),
        ensures
            final(self).wf(),
            final(self)@ == old(self)@.insert(
                endpoint_text(addr@, port),
                entered(addr@, port, *now),
            ),
            final(self)@ == with_entered(old(self)@, addr@, port, *now),
            final(self).listed() == placed(old(self).listed(), entered(addr@, port, *now)),
    {
        let username = endpoint(addr.as_str(), port);
        self.put(Peer { username, addr, port, share_count: 0, last_seen: *now, manual: true });
    }

    /// Takes in a peer that is entered by hand now.
    pub fn add_manual(&mut self, addr: String, port: u16)
        requires
            old(self).wf(),
        ensures
            final(self).wf(),
            exists|now: Timestamp|
                now.wf() && now.secs >= 0 && final(self)@ == old(self)@.insert(
                    endpoint_text(addr@, port),
                    #[trigger] entered(addr@, port, now),
                ) && final(self).listed() == placed(
                    old(self).listed(),
                    entered(addr@, port, now),
                ),
    {
        let now = utc_now();
        self.add_manual_at(addr, port, &now);
    }

    /// Forgets the peer with an address and port.
    pub fn remove_manual(&mut self, addr: &str, port: u16)
        requires
            old(self).wf(),
        ensures
            final(self).wf(),
            final(self)@ == old(self)@.remove(endpoint_text(addr@, port)),
            final(self)@ == without_peer(old(self)@, addr@, port),
            final(self).listed() == without(old(self).listed(), endpoint_text(addr@, port)),
    {
        broadcast use crate::text::group_views;

        let ghost before = views(self.peers@);
        match self.position(addr, port) {
            Some(i) => {
                proof {
                    assert(before[i as int].key() == endpoint_text(addr@, port));
                    lemma_keyed_remove(before, i as int);
                    lemma_remove_is_without(before, i as int);
                }
                let _ = self.peers.remove(i);
            },
            None => {
                assert(self@.remove(endpoint_text(addr@, port)) =~= self@);
                proof {
                    lemma_without_absent(before, endpoint_text(addr@, port));
                }
            },
        }
    }

    /// Forgets the peers that are stale at `now`.
    pub fn prune_stale_at(&mut self, now: &Timestamp)
        requires
            old(self).wf(),
        ensures
            final(self).wf(),
            final(self)@ == fresh_peers(old(self)@, *now),
            final(self).listed() == still_held(old(self).listed(), final(self)@),
    {
        broadcast use crate::text::group_views;

        let ghost s = views(self.peers@);
        let mut kept: Vec<Peer> = Vec::new();
        let mut i: usize = 0;
        assert(s.take(0) =~= Seq::<PeerView>::empty());
        assert(fresh_peers(keyed(s.take(0)), *now) =~= Map::empty());
        proof {
            lemma_keyed(s);
        }
        while i < self.peers.len()
            invariant
                i <= self.peers@.len(),
                s == views(self.peers@),
                distinct_keys(s),
                distinct_keys(views(kept@)),
                keyed(views(kept@)) == fresh_peers(keyed(s.take(i as int)), *now),
                lists(s, keyed(s)),
                views(kept@) == still_held(s.take(i as int), fresh_peers(keyed(s), *now)),
            decreases self.peers@.len() - i,
        {
            let ghost m = keyed(s.take(i as int));
            let ghost x = s[i as int];
            let ghost n = m.insert(x.key(), x);
            proof {
                lemma_keyed_take(s, i as int);
                lemma_keyed(views(kept@));
                assert(s.take(i + 1).drop_last() =~= s.take(i as int));
                assert(keyed(s)[s[i as int].key()] == x);
            }
            if !self.peers[i].is_stale_at(now) {
                let ghost k = views(kept@);
                proof {
                    assert forall|a: int| 0 <= a < k.len() implies #[trigger] k[a].key()
                        != x.key() by {
                        assert(keyed(k).dom().contains(k[a].key()));
                    }
                    lemma_keyed_push(k, x);
                    assert(fresh_peers(n, *now) =~= fresh_peers(m, *now).insert(x.key(), x));
                }
                kept.push(self.peers[i].clone());
                assert(views(kept@) =~= k.push(x));
            } else {
                assert(fresh_peers(n, *now) =~= fresh_peers(m, *now));
            }
            i += 1;
        }
        assert(s.take(i as int) =~= s);
        self.peers = kept;
    }

    /// Forgets the peers that are stale by now.
    pub fn prune_stale(&mut self)
        requires
            old(self).wf(),
        ensures
            final(self).wf(),
            exists|now: Timestamp|
                now.wf() && now.secs >= 0 && final(self)@ == #[trigger] fresh_peers(
                    old(self)@,
                    now,
                ),
            final(self).listed() == still_held(old(self).listed(), final(self)@),
    {
        let now = utc_now();
        self.prune_stale_at(&now);
    }

    /// Every peer that is known.
    pub fn list(&self) -> (r: Vec<Peer>)
        requires
            self.wf(),
        ensures
            views(r@) == self.listed(),
            lists(views(r@), self@),
    {
        broadcast use crate::text::group_views;

        let mut out: Vec<Peer> = Vec::new();
        let mut i: usize = 0;
        while i < self.peers.len()
            invariant
                i <= self.peers@.len(),
                views(out@) == views(self.peers@).take(i as int),
            decreases self.peers@.len() - i,
        {
            out.push(self.peers[i].clone());
            i += 1;
            assert(views(self.peers@).take(i as int) =~= views(self.peers@).take(i - 1).push(
                self.peers@[i - 1]@,
            ));
        }
        proof {
            assert(views(self.peers@).take(i as int) =~= views(self.peers@));
            lemma_keyed(views(self.peers@));
        }
        out
    }
}

// ---------------------------------------------------------------------------
// Announcements
// ---------------------------------------------------------------------------

/// What an announcement of a service says: where it comes from, the properties
/// that are of interest, and the first of its IPv4 addresses.
#[derive(Debug)]
pub struct ResolvedService {
    pub port: u16,
    pub hostname: String,
    pub fullname: String,
    pub app: Option<String>,
    pub username: Option<String>,
    pub share_count: Option<String>,
    pub addr: Option<String>,
}

/// A peer as it announced itself.
#[derive(Debug)]
pub struct Sighting {
    pub addr: String,
    pub port: u16,
    pub username: String,
    pub share_count: usize,
}

/// A sighting in mathematical terms.
pub struct SightingView {
    pub addr: Seq<char>,
    pub port: u16,
    pub username: Seq<char>,
    pub share_count: usize,
}

impl View for Sighting {
    type V = SightingView;

    open spec fn view(&self) -> SightingView {
        SightingView {
            addr: self.addr@,
            port: self.port,
            username: self.username@,
            share_count: self.share_count,
        }
    }
}

/// What an announcement tells of a peer to the host `own_host` that listens
/// on `own_port`: nothing, where it is the host's own, where another program
/// made it, or where it names no address.
pub open spec fn sighting_of(
    s: ResolvedService,
    own_port: u16,
    own_host: Seq<char>,
) -> Option<SightingView> {
    if s.port == own_port && s.hostname@ == own_host {
        None
    } else if opt_view(s.app) != Some(APP_ID@) {
        None
    } else {
        match s.addr {
            None => None,
            Some(addr) => Some(
                SightingView {
                    addr: addr@,
                    port: s.port,
                    username: match s.username {
                        Some(u) => u@,
                        None => s.fullname@,
                    },
                    share_count: announced_count(opt_view(s.share_count)),
                },
            ),
        }
    }
}

/// The number of shares that an announcement gives, or 0 where it gives none.
pub open spec fn announced_count(text: Option<Seq<char>>) -> usize {
    match text {
        None => 0,
        Some(t) => match number_in(t, usize::MAX as int) {
            Some(n) => n as usize,
            None => 0,
        },
    }
}

/// What an announcement tells of a peer to the host `own_host` that listens
/// on `own_port`.
pub fn accept_service(s: ResolvedService, own_port: u16, own_host: &str) -> (r: Option<Sighting>)
    ensures
        opt_view(r) == sighting_of(s, own_port, own_host@),
{
    if s.port == own_port && same(s.hostname.as_str(), own_host) {
        return None;
    }
    let ours = match &s.app {
        Some(a) => same(a.as_str(), APP_ID),
        None => false,
    };
    if !ours {
        return None;
    }
    let share_count: usize = match &s.share_count {
        None => 0,
        Some(t) => match parse_decimal(t.as_str(), usize::MAX as u64) {
            Some(n) => n as usize,
            None => 0,
        },
    };
    let username = match s.username {
        Some(u) => u,
        None => s.fullname,
    };
    match s.addr {
        Some(addr) => Some(Sighting { addr, port: s.port, username, share_count }),
        None => None,
    }
}

/// The properties of this host's announcement.
pub open spec fn props_of(username: Seq<char>, share_count: usize) -> Seq<(Seq<char>, Seq<char>)> {
    seq![
        ("username"@, username),
        ("share_count"@, decimal_text(share_count as nat)),
        ("app"@, APP_ID@),
        ("version"@, PROTOCOL_VERSION@),
    ]
}

/// The properties of this host's announcement.
pub fn build_props(username: &str, share_count: usize) -> (r: Vec<(String, String)>)
    ensures
        r@.map_values(|p: (String, String)| (p.0@, p.1@)) == props_of(username@, share_count),
{
    let mut props: Vec<(String, String)> = Vec::new();
    props.push(("username".to_owned(), username.to_owned()));
    props.push(("share_count".to_owned(), decimal(share_count as u64)));
    props.push(("app".to_owned(), APP_ID.to_owned()));
    props.push(("version".to_owned(), PROTOCOL_VERSION.to_owned()));
    assert(props@.map_values(|p: (String, String)| (p.0@, p.1@)) =~= props_of(
        username@,
        share_count,
    ));
    props
}

/// The characters in the first `n` bytes of a text, or the whole text where it
/// is shorter. There are none where the cut would go through a character.
pub open spec fn first_bytes(s: Seq<char>, n: nat) -> Option<Seq<char>>
    decreases s.len(),
{
    if text_bytes(s) <= n || s.len() == 0 {
        Some(s)
    } else if text_bytes(s.drop_last()) < n {
        None
    } else {
        first_bytes(s.drop_last(), n)
    }
}

/// How long the name of a service may be, in bytes.
pub const NAME_BYTES: usize = 63;

/// The character that stands in the name of a service for `c`.
pub open spec fn label_char(c: char) -> char {
    if is_alphabetic_or_numeric(c) || c == '-' {
        c
    } else {
        '_'
    }
}

/// A name with only letters, digits, hyphens and underscores.
pub open spec fn label_text(name: Seq<char>) -> Seq<char> {
    name.map_values(|c: char| label_char(c))
}

fn to_label(name: &str) -> (r: Vec<char>)
    ensures
        r@ == label_text(name@),
{
    let chars = to_chars(name);
    let mut out: Vec<char> = Vec::new();
    let mut i: usize = 0;
    while i < chars.len()
        invariant
            i <= chars@.len(),
            chars@ == name@,
            out@ =~= label_text(name@).take(i as int),
        decreases chars@.len() - i,
    {
        let c = chars[i];
        if c.is_alphanumeric() || c == '-' {
            out.push(c);
        } else {
            out.push('_');
        }
        i += 1;
    }
    assert(label_text(name@).take(i as int) =~= label_text(name@));
    out
}

/// The number of characters in the first `NAME_BYTES` bytes of a text.
fn cut_place(s: &Vec<char>) -> (r: Option<usize>)
    ensures
        match r {
            Some(k) => k <= s@.len() && first_bytes(s@, NAME_BYTES as nat) == Some(
                s@.take(k as int),
            ),
            None => first_bytes(s@, NAME_BYTES as nat) is None,
        },
{
    let mut used: usize = 0;
    let mut i: usize = 0;
    assert(s@.take(0) =~= Seq::<char>::empty());
    while i < s.len()
        invariant
            i <= s@.len(),
            used == text_bytes(s@.take(i as int)),
            used <= NAME_BYTES,
        decreases s@.len() - i,
    {
        let b = bytes_of_char(s[i]);
        assert(s@.take(i + 1).drop_last() =~= s@.take(i as int));
        if used == NAME_BYTES {
            proof {
                lemma_first_bytes(s@, i as int);
            }
            return Some(i);
        }
        if used + b > NAME_BYTES {
            proof {
                lemma_first_bytes_none(s@, i as int);
            }
            return None;
        }
        used += b;
        i += 1;
    }
    assert(s@.take(i as int) =~= s@);
    Some(i)
}

proof fn lemma_first_bytes(s: Seq<char>, i: int)
    requires
        0 <= i <= s.len(),
        text_bytes(s.take(i)) == NAME_BYTES,
    ensures
        first_bytes(s, NAME_BYTES as nat) == Some(s.take(i)),
        text_bytes(s) >= NAME_BYTES,
    decreases s.len(),
{
    if i == s.len() {
        assert(s.take(i) =~= s);
    } else {
        assert(s.drop_last().take(i) =~= s.take(i));
        lemma_first_bytes(s.drop_last(), i);
    }
}

proof fn lemma_first_bytes_none(s: Seq<char>, i: int)
    requires
        0 <= i < s.len(),
        text_bytes(s.take(i)) < NAME_BYTES,
        text_bytes(s.take(i + 1)) > NAME_BYTES,
    ensures
        first_bytes(s, NAME_BYTES as nat) is None,
        text_bytes(s) > NAME_BYTES,
    decreases s.len(),
{
    if i + 1 == s.len() {
        assert(s.take(i + 1) =~= s);
        assert(s.drop_last() =~= s.take(i));
    } else {
        assert(s.drop_last().take(i) =~= s.take(i));
        assert(s.drop_last().take(i + 1) =~= s.take(i + 1));
        lemma_first_bytes_none(s.drop_last(), i);
    }
}

/// The name of this host's service.
pub fn sanitise_instance_name(name: &str) -> (r: String)
    requires
        first_bytes(label_text(name@), NAME_BYTES as nat) is Some,
    ensures
        r@ == first_bytes(label_text(name@), NAME_BYTES as nat)->0,
{
    let label = to_label(name);
    let mut k: usize = label.len();
    if let Some(cut) = cut_place(&label) {
        k = cut;
    }
    crate::text::from_chars_range(&label, 0, k)
}

/// The name of this host's service, unless its end would fall within a
/// character.
pub fn checked_instance_name(name: &str) -> (r: Option<String>)
    ensures
        opt_view(r) == first_bytes(label_text(name@), NAME_BYTES as nat),
{
    let label = to_label(name);
    match cut_place(&label) {
        Some(_) => Some(sanitise_instance_name(name)),
        None => None,
    }
}

/// The full name of a service.
pub fn service_fullname(instance: &str) -> (r: String)
    ensures
        r@ == instance@ + "."@ + SERVICE_TYPE@,
{
    let mut out = instance.to_owned();
    out.append(".");
    out.append(SERVICE_TYPE);
    out
}

/// The name of this host on the network. A host without a name of its own is
/// the local one.
pub fn network_host(name: Option<String>) -> (r: String)
    ensures
        r@ == (match name {
            Some(n) => n@,
            None => "localhost"@,
        }) + ".local."@,
{
    let mut out = match name {
        Some(n) => n,
        None => "localhost".to_owned(),
    };
    out.append(".local.");
    out
}

// ---------------------------------------------------------------------------
// Laws
// ---------------------------------------------------------------------------

/// A peer that was entered by hand is never forgotten by age.
pub proof fn law_manual_peers_stay(m: Map<Seq<char>, PeerView>, now: Timestamp, k: Seq<char>)
    requires
        m.dom().contains(k),
        m[k].manual,
    ensures
        fresh_peers(m, now).dom().contains(k),
        fresh_peers(m, now)[k] == m[k],
{
}

/// A peer that was entered by hand stays so when it announces itself.
pub proof fn law_announcing_keeps_manual(
    m: Map<Seq<char>, PeerView>,
    addr: Seq<char>,
    port: u16,
    username: Seq<char>,
    share_count: usize,
    now: Timestamp,
)
    ensures
        announced(m, addr, port, username, share_count, now).manual <==> m.dom().contains(
            endpoint_text(addr, port),
        ) && m[endpoint_text(addr, port)].manual,
        announced(
            m.insert(endpoint_text(addr, port), entered(addr, port, now)),
            addr,
            port,
            username,
            share_count,
            now,
        ).manual,
{
}

/// Forgetting the stale peers keeps exactly the others.
pub proof fn law_pruning_keeps_fresh(m: Map<Seq<char>, PeerView>, now: Timestamp, k: Seq<char>)
    ensures
        fresh_peers(m, now).dom().contains(k) <==> m.dom().contains(k) && !m[k].stale_at(now),
        fresh_peers(m, now).dom().contains(k) ==> fresh_peers(m, now)[k] == m[k],
{
}

/// A peer that has just announced itself is not stale.
pub proof fn law_announced_is_fresh(
    m: Map<Seq<char>, PeerView>,
    addr: Seq<char>,
    port: u16,
    username: Seq<char>,
    share_count: usize,
    now: Timestamp,
)
    ensures
        !announced(m, addr, port, username, share_count, now).stale_at(now),
{
}

/// A host takes no notice of its own announcements.
pub proof fn law_own_announcement_is_ignored(s: ResolvedService)
    ensures
        sighting_of(s, s.port, s.hostname@) is None,
{
}

/// What a host announces, another host reads: the properties of an
/// announcement give the name and the number of shares back.
pub proof fn law_announcement_is_understood(
    s: ResolvedService,
    username: Seq<char>,
    share_count: usize,
    own_port: u16,
    own_host: Seq<char>,
)
    requires
        s.addr is Some,
        s.port != own_port || s.hostname@ != own_host,
        opt_view(s.username) == Some(props_of(username, share_count)[0].1),
        opt_view(s.share_count) == Some(props_of(username, share_count)[1].1),
        opt_view(s.app) == Some(props_of(username, share_count)[2].1),
    ensures
        sighting_of(s, own_port, own_host) == Some(
            SightingView { addr: s.addr->0@, port: s.port, username, share_count },
        ),
{
    crate::text::law_decimal_round_trip(share_count as nat, usize::MAX as int);
}

/// The name of a service takes no more bytes than it may, and holds only
/// letters, digits, hyphens and underscores.
pub proof fn law_instance_name_fits(name: Seq<char>)
    requires
        first_bytes(label_text(name), NAME_BYTES as nat) is Some,
    ensures
        ({
            let r = first_bytes(label_text(name), NAME_BYTES as nat)->0;
            &&& text_bytes(r) <= NAME_BYTES
            &&& forall|i: int|
                0 <= i < r.len() ==> is_alphabetic_or_numeric(#[trigger] r[i]) || r[i] == '-'
                    || r[i] == '_'
        }),
{
    lemma_first_bytes_fit(label_text(name), NAME_BYTES as nat);
}

proof fn lemma_first_bytes_fit(s: Seq<char>, n: nat)
    requires
        first_bytes(s, n) is Some,
    ensures
        text_bytes(first_bytes(s, n)->0) <= n,
        first_bytes(s, n)->0.len() <= s.len(),
        first_bytes(s, n)->0 == s.take(first_bytes(s, n)->0.len() as int),
    decreases s.len(),
{
    if text_bytes(s) <= n || s.len() == 0 {
        assert(s.take(s.len() as int) =~= s);
    } else {
        lemma_first_bytes_fit(s.drop_last(), n);
        let k = first_bytes(s, n)->0.len() as int;
        assert(s.drop_last().take(k) =~= s.take(k));
    }
}

/// A peer that announces itself is noted as it did: under its address and port,
/// with its name and the number of its shares, and as seen just now.
pub proof fn law_announcements_are_noted(
    m: Map<Seq<char>, PeerView>,
    addr: Seq<char>,
    port: u16,
    username: Seq<char>,
    share_count: usize,
    now: Timestamp,
)
    ensures
        ({
            let p = announced(m, addr, port, username, share_count, now);
            &&& p.addr == addr
            &&& p.port == port
            &&& p.username == username
            &&& p.share_count == share_count
            &&& p.last_seen == now
            &&& p.key() == addr + ":"@ + decimal_text(port as nat)
            &&& p.base_url() == "https://"@ + addr + ":"@ + decimal_text(port as nat)
        }),
{
}

/// A peer that is entered by hand goes by its address and port until it
/// announces a name, offers nothing that is known of, and is kept as entered by
/// hand.
pub proof fn law_entered_peers_are_noted(addr: Seq<char>, port: u16, now: Timestamp)
    ensures
        ({
            let p = entered(addr, port, now);
            &&& p.addr == addr
            &&& p.port == port
            &&& p.username == addr + ":"@ + decimal_text(port as nat)
            &&& p.share_count == 0
            &&& p.last_seen == now
            &&& p.manual
        }),
{
}

/// A peer is forgotten exactly where it was not entered by hand and was last
/// seen at least sixteen seconds ago, so that more than fifteen whole seconds
/// have passed.
pub proof fn law_unseen_peers_are_forgotten(
    m: Map<Seq<char>, PeerView>,
    now: Timestamp,
    k: Seq<char>,
)
    requires
        m.dom().contains(k),
    ensures
        fresh_peers(m, now).dom().contains(k) <==> m[k].manual || now.instant()
            - m[k].last_seen.instant() < 16_000_000_000,
{
}

/// Two peers are the same exactly where their addresses and ports are.
pub proof fn law_peers_are_told_apart(a: Seq<char>, p: u16, b: Seq<char>, q: u16)
    ensures
        endpoint_text(a, p) == endpoint_text(b, q) <==> a == b && p == q,
{
    reveal_strlit(":");
    assert(":"@ =~= seq![':']);
    let dp = decimal_text(p as nat);
    let dq = decimal_text(q as nat);
    crate::text::law_decimal_is_digits(p as nat);
    crate::text::law_decimal_is_digits(q as nat);
    assert forall|i: int| 0 <= i < dp.len() implies dp[i] != ':' by {
        assert(crate::text::is_digit(dp[i]));
    }
    assert forall|i: int| 0 <= i < dq.len() implies dq[i] != ':' by {
        assert(crate::text::is_digit(dq[i]));
    }
    crate::text::lemma_after_last_joined(a, ':', dp);
    crate::text::lemma_after_last_joined(b, ':', dq);
    crate::text::law_decimal_round_trip(p as nat, u16::MAX as int);
    crate::text::law_decimal_round_trip(q as nat, u16::MAX as int);
    if endpoint_text(a, p) == endpoint_text(b, q) {
        let s = endpoint_text(a, p);
        assert(dp == dq);
        assert(s.take(a.len() as int) =~= a);
        assert(s.take(b.len() as int) =~= b);
    }
}

/// Every announcement of this program by another host that names an address is
/// taken in, with that address, its port, its name, which is the name of the
/// service where it gives none, and its number of shares, which is nothing where
/// it gives none. No other announcement is.
pub proof fn law_other_hosts_are_seen(s: ResolvedService, own_port: u16, own_host: Seq<char>)
    ensures
        ({
            let seen = sighting_of(s, own_port, own_host);
            &&& seen is Some <==> (s.port != own_port || s.hostname@ != own_host) && s.addr is Some
                && s.app is Some && s.app->0@ == "fileshare"@
            &&& seen is Some ==> {
                &&& seen->0.addr == s.addr->0@
                &&& seen->0.port == s.port
                &&& s.username is Some ==> seen->0.username == s.username->0@
                &&& s.username is None ==> seen->0.username == s.fullname@
                &&& s.share_count is None ==> seen->0.share_count == 0
                &&& forall|n: usize|
                    s.share_count is Some && s.share_count->0@ == #[trigger] decimal_text(n as nat)
                        ==> seen->0.share_count == n
            }
        }),
{
    assert forall|n: usize|
        s.share_count is Some && s.share_count->0@ == #[trigger] decimal_text(
            n as nat,
        ) implies announced_count(opt_view(s.share_count)) == n by {
        crate::text::law_decimal_round_trip(n as nat, usize::MAX as int);
    }
}

/// An announcement says four things under their names: who announces, how many
/// shares there are, which program it is, and which version it speaks.
pub proof fn law_announcements_say_four_things(username: Seq<char>, share_count: usize)
    ensures
        props_of(username, share_count) == seq![
            ("username"@, username),
            ("share_count"@, decimal_text(share_count as nat)),
            ("app"@, "fileshare"@),
            ("version"@, "1"@),
        ],
{
}

/// The name of a service is the name of the host as far as it can be: letters,
/// digits and hyphens stay, everything else becomes an underscore, and it is cut
/// only where it is longer than 63 bytes.
pub proof fn law_instance_name_keeps_what_it_can(name: Seq<char>)
    ensures
        label_text(name).len() == name.len(),
        forall|i: int|
            0 <= i < name.len() ==> #[trigger] label_text(name)[i] == (if is_alphabetic_or_numeric(
                name[i],
            ) || name[i] == '-' {
                name[i]
            } else {
                '_'
            }),
        text_bytes(label_text(name)) <= 63 ==> first_bytes(label_text(name), NAME_BYTES as nat)
            == Some(label_text(name)),
        first_bytes(label_text(name), NAME_BYTES as nat) is Some ==> {
            let r = first_bytes(label_text(name), NAME_BYTES as nat)->0;
            &&& r.is_prefix_of(label_text(name))
            &&& r == label_text(name) || text_bytes(r) == 63
        },
{
    if first_bytes(label_text(name), NAME_BYTES as nat) is Some {
        lemma_first_bytes_fit(label_text(name), NAME_BYTES as nat);
        lemma_first_bytes_full(label_text(name), NAME_BYTES as nat);
    }
}

proof fn lemma_first_bytes_full(s: Seq<char>, n: nat)
    requires
        first_bytes(s, n) is Some,
    ensures
        first_bytes(s, n)->0 == s || text_bytes(first_bytes(s, n)->0) == n,
    decreases s.len(),
{
    if text_bytes(s) <= n || s.len() == 0 {
    } else {
        lemma_first_bytes_full(s.drop_last(), n);
        lemma_first_bytes_fit(s.drop_last(), n);
    }
}

/// Announcing, entering and removing a peer is about that peer only: it is found
/// at its address and port afterwards, or is not, and all others stay as they are.
pub proof fn law_registry_of_peers_follows(
    m: Map<Seq<char>, PeerView>,
    addr: Seq<char>,
    port: u16,
    username: Seq<char>,
    share_count: usize,
    now: Timestamp,
    other_addr: Seq<char>,
    other_port: u16,
)
    requires
        other_addr != addr || other_port != port,
    ensures
        ({
            let k = addr + ":"@ + decimal_text(port as nat);
            let o = other_addr + ":"@ + decimal_text(other_port as nat);
            let a = with_announced(m, addr, port, username, share_count, now);
            let e = with_entered(m, addr, port, now);
            let r = without_peer(m, addr, port);
            &&& a.dom().contains(k) && a[k].username == username && a[k].share_count == share_count
                && a[k].last_seen == now
            &&& e.dom().contains(k) && e[k].manual && e[k].addr == addr && e[k].port == port
            &&& !r.dom().contains(k)
            &&& a.dom().contains(o) <==> m.dom().contains(o)
            &&& e.dom().contains(o) <==> m.dom().contains(o)
            &&& r.dom().contains(o) <==> m.dom().contains(o)
            &&& a[o] == m[o] && e[o] == m[o] && (m.dom().contains(o) ==> r[o] == m[o])
        }),
{
    law_peers_are_told_apart(addr, port, other_addr, other_port);
}

}
