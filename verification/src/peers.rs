//! Peer nodes: how they are listed, and what is asked for when one is paired.

use crate::text;
use vstd::prelude::*;

verus! {

/// How a node was found.
#[derive(Debug, Clone, Copy, PartialEq, Eq, Structural)]
pub enum PeerDiscoverySource {
    Direct,
    Mdns,
    Lnd,
}

/// The label of a source.
pub open spec fn source_name(source: PeerDiscoverySource) -> Seq<char> {
    match source {
        PeerDiscoverySource::Direct => "直连"@,
        PeerDiscoverySource::Mdns => "mDNS"@,
        PeerDiscoverySource::Lnd => "lnd"@,
    }
}

/// The label of a source.
pub fn source_label(source: PeerDiscoverySource) -> (r: &'static str)
    ensures
        r@ == source_name(source),
{
    match source {
        PeerDiscoverySource::Direct => "直连",
        PeerDiscoverySource::Mdns => "mDNS",
        PeerDiscoverySource::Lnd => "lnd",
    }
}

/// A node, paired or found. Of each address its canonical form is kept beside
/// it, where it has one.
#[derive(Debug)]
pub struct PeerNode {
    pub node_id: String,
    pub display_name: String,
    pub fingerprint: String,
    pub source: PeerDiscoverySource,
    pub addresses: Vec<String>,
    pub canonical: Vec<Option<String>>,
}

/// The canonical forms that addresses have.
pub open spec fn canonical_of(forms: Seq<Option<String>>) -> Seq<Seq<char>>
    decreases forms.len(),
{
    if forms.len() == 0 {
        Seq::empty()
    } else {
        let earlier = canonical_of(forms.drop_last());
        match forms.last() {
            Some(form) => earlier.push(form@),
            None => earlier,
        }
    }
}

fn canonical_peer_addresses(forms: &Vec<Option<String>>) -> (r: Vec<String>)
    ensures
        text::views(r@) == canonical_of(forms@),
{
    let mut out: Vec<String> = Vec::new();
    let mut i: usize = 0;
    proof {
        assert(text::views(out@) =~= canonical_of(forms@.take(0)));
    }
    while i < forms.len()
        invariant
            i <= forms@.len(),
            text::views(out@) == canonical_of(forms@.take(i as int)),
        decreases forms@.len() - i,
    {
        let ghost before = text::views(out@);
        proof {
            assert(forms@.take(i + 1).drop_last() =~= forms@.take(i as int));
            assert(forms@.take(i + 1).last() == forms@[i as int]);
        }
        if let Some(form) = &forms[i] {
            out.push(form.clone());
            proof {
                assert(text::views(out@) =~= before.push(form@));
            }
        }
        i = i + 1;
    }
    proof {
        assert(forms@.take(i as int) =~= forms@);
    }
    out
}

/// Whether two nodes are reached at different addresses, order included.
pub fn peer_addresses_differ(peer: &PeerNode, found: &PeerNode) -> (r: bool)
    ensures
        r == (canonical_of(peer.canonical@) != canonical_of(found.canonical@)),
{
    let a: Vec<String> = canonical_peer_addresses(&peer.canonical);
    let b: Vec<String> = canonical_peer_addresses(&found.canonical);
    if a.len() != b.len() {
        assert(text::views(a@).len() != text::views(b@).len());
        return true;
    }
    let mut i: usize = 0;
    while i < a.len()
        invariant
            i <= a@.len(),
            a@.len() == b@.len(),
            text::views(a@) == canonical_of(peer.canonical@),
            text::views(b@) == canonical_of(found.canonical@),
            forall|j: int| 0 <= j < i ==> (#[trigger] a@[j])@ == b@[j]@,
        decreases a@.len() - i,
    {
        if !text::same(a[i].as_str(), b[i].as_str()) {
            assert(text::views(a@)[i as int] != text::views(b@)[i as int]);
            return true;
        }
        i = i + 1;
    }
    proof {
        assert(text::views(a@) =~= text::views(b@));
    }
    false
}

/// What can be done with a node that was found.
#[derive(Debug, Clone, Copy, PartialEq, Eq, Structural)]
pub enum Standing {
    /// It can be paired.
    New,
    /// It is paired, and its addresses are known.
    Paired,
    /// It is paired, and has moved.
    Moved,
}

/// The place of a node, from some place on.
pub open spec fn node_place(peers: Seq<PeerNode>, id: Seq<char>, from: int) -> Option<int>
    decreases peers.len() - from,
{
    if from < 0 || from >= peers.len() {
        None
    } else if peers[from].node_id@ == id {
        Some(from)
    } else {
        node_place(peers, id, from + 1)
    }
}

/// What can be done with a node that was found: one that is paired under the
/// same fingerprint may have moved.
pub open spec fn standing_of(peers: Seq<PeerNode>, found: &PeerNode) -> Standing {
    match node_place(peers, found.node_id@, 0) {
        Some(i) => if peers[i].fingerprint@ == found.fingerprint@ && canonical_of(
            peers[i].canonical@,
        ) != canonical_of(found.canonical@) {
            Standing::Moved
        } else {
            Standing::Paired
        },
        None => Standing::New,
    }
}

/// What can be done with a node that was found.
pub fn discovered_standing(peers: &Vec<PeerNode>, found: &PeerNode) -> (r: Standing)
    ensures
        r == standing_of(peers@, found),
{
    let mut i: usize = 0;
    while i < peers.len()
        invariant
            i <= peers@.len(),
            node_place(peers@, found.node_id@, 0) == node_place(
                peers@,
                found.node_id@,
                i as int,
            ),
        decreases peers@.len() - i,
    {
        if text::same(peers[i].node_id.as_str(), found.node_id.as_str()) {
            return if text::same(
                peers[i].fingerprint.as_str(),
                found.fingerprint.as_str(),
            ) && peer_addresses_differ(&peers[i], found) {
                Standing::Moved
            } else {
                Standing::Paired
            };
        }
        i = i + 1;
    }
    Standing::New
}

/// A node that gives another fingerprint than the one it was paired with is
/// never taken for the one that moved.
pub proof fn law_only_the_paired_node_moves(peers: Seq<PeerNode>, found: &PeerNode)
    ensures
        standing_of(peers, found) == Standing::Moved ==> exists|i: int|
            0 <= i < peers.len() && (#[trigger] peers[i]).node_id@ == found.node_id@
                && peers[i].fingerprint@ == found.fingerprint@,
{
    lemma_node_place(peers, found.node_id@, 0);
    if standing_of(peers, found) == Standing::Moved {
        let i = node_place(peers, found.node_id@, 0)->0;
        assert(peers[i].node_id@ == found.node_id@);
    }
}

proof fn lemma_node_place(peers: Seq<PeerNode>, id: Seq<char>, from: int)
    requires
        0 <= from,
    ensures
        node_place(peers, id, from) matches Some(i) ==> from <= i < peers.len()
            && peers[i].node_id@ == id,
    decreases peers.len() - from,
{
    if from < peers.len() {
        lemma_node_place(peers, id, from + 1);
    }
}

/// How a node is listed: its name, its fingerprint, where it was found and its
/// first address.
pub fn peer_line(peer: &PeerNode) -> (r: String)
    ensures
        r@ == peer.display_name@ + "  "@ + peer.fingerprint@ + "  "@ + source_name(peer.source)
            + "  "@ + if peer.addresses@.len() > 0 {
            peer.addresses@[0]@
        } else {
            Seq::empty()
        },
{
    let first: String = if peer.addresses.len() > 0 {
        peer.addresses[0].clone()
    } else {
        String::new()
    };
    let head: String = text::concat4(
        peer.display_name.as_str(),
        "  ",
        peer.fingerprint.as_str(),
        "  ",
    );
    text::concat4(head.as_str(), source_label(peer.source), "  ", first.as_str())
}

/// How a request for pairing is listed.
pub fn pairing_line(display_name: &str, fingerprint: &str, node_id: &str) -> (r: String)
    ensures
        r@ == display_name@ + "  "@ + fingerprint@ + "  "@ + node_id@,
{
    let head: String = text::concat3(display_name, "  ", fingerprint);
    text::concat3(head.as_str(), "  ", node_id)
}

/// How a switch is stored.
pub fn bool_setting(value: bool) -> (r: String)
    ensures
        r@ == if value {
            "true"@
        } else {
            "false"@
        },
{
    if value {
        "true".to_string()
    } else {
        "false".to_string()
    }
}

/// The name under which this node is to be shown, or what is wrong with it.
pub fn node_display_name(input: &str) -> (r: Result<String, &'static str>)
    ensures
        if text::trimmed(input@).len() == 0 {
            r matches Err(message) && message@ == "节点显示名不能为空"@
        } else {
            r matches Ok(name) && name@ == text::trimmed(input@)
        },
{
    let name: String = text::trim(input);
    if text::is_empty(name.as_str()) {
        Err("节点显示名不能为空")
    } else {
        Ok(name)
    }
}

/// A node that is to be paired by its address.
#[derive(Debug)]
pub struct PairRequest {
    pub address: String,
    pub fingerprint: Option<String>,
}

/// What became of a press on the button that pairs a node by its address.
#[derive(Debug)]
pub enum Pairing {
    /// Another pairing runs.
    Busy,
    /// There is no address.
    NoAddress,
    /// A node is asked.
    Asked(PairRequest),
}

/// What becomes of a press on the button that pairs a node by its address: it
/// asks for a node where no pairing runs and there is an address, with a
/// fingerprint where there is one.
pub fn pair_direct_peer(pending: bool, address: &str, fingerprint: &str) -> (r: Pairing)
    ensures
        if pending {
            r is Busy
        } else if text::trimmed(address@).len() == 0 {
            r is NoAddress
        } else {
            r matches Pairing::Asked(request) && request.address@ == text::trimmed(address@)
                && text::opt_view(request.fingerprint) == text::trimmed_non_empty(fingerprint@)
        },
{
    if pending {
        return Pairing::Busy;
    }
    let address: String = text::trim(address);
    if text::is_empty(address.as_str()) {
        return Pairing::NoAddress;
    }
    Pairing::Asked(PairRequest { address, fingerprint: text::trimmed_string(fingerprint) })
}

/// What is said once a node was paired.
pub fn paired_status(display_name: &str) -> (r: String)
    ensures
        r@ == "已配对 "@ + display_name@,
{
    text::concat("已配对 ", display_name)
}

/// The settings of the discovery server, and the window in which they are
/// edited.
#[derive(Debug)]
pub struct LndSettings {
    pub url: String,
    pub token: String,
    pub domain: String,
    pub open: bool,
    pub edited_url: String,
    pub edited_token: String,
    pub edited_domain: String,
}

/// What the user did in the window.
#[derive(Debug, Clone, Copy, PartialEq, Eq, Structural)]
pub struct LndActions {
    pub save: bool,
    pub cancel: bool,
    /// Whether the window's own button left it open.
    pub open: bool,
}

/// What is stored of the settings: the values without space around them.
#[derive(Debug)]
pub struct LndValues {
    pub url: String,
    pub token: String,
    pub domain: String,
}

impl LndSettings {
    /// Opens the window on the present settings.
    pub fn open_window(&mut self)
        ensures
            *final(self) == (LndSettings {
                open: true,
                edited_url: old(self).url,
                edited_token: old(self).token,
                edited_domain: old(self).domain,
                ..*old(self)
            }),
    {
        self.edited_url = self.url.clone();
        self.edited_token = self.token.clone();
        self.edited_domain = self.domain.clone();
        self.open = true;
    }

    /// What is to be stored.
    pub fn values(&self) -> (r: LndValues)
        ensures
            r.url@ == text::trimmed(self.edited_url@),
            r.token@ == text::trimmed(self.edited_token@),
            r.domain@ == text::trimmed(self.edited_domain@),
    {
        LndValues {
            url: text::trim(self.edited_url.as_str()),
            token: text::trim(self.edited_token.as_str()),
            domain: text::trim(self.edited_domain.as_str()),
        }
    }

    /// Takes in that the values were stored, or not: then the window stays.
    pub fn stored(&mut self, values: LndValues, ok: bool)
        ensures
            *final(self) == if ok {
                LndSettings {
                    url: values.url,
                    token: values.token,
                    domain: values.domain,
                    open: false,
                    ..*old(self)
                }
            } else {
                LndSettings { open: true, ..*old(self) }
            },
    {
        if ok {
            self.url = values.url;
            self.token = values.token;
            self.domain = values.domain;
            self.open = false;
        } else {
            self.open = true;
        }
    }

    /// Whether the window stays open where nothing was saved.
    pub fn after_actions(&mut self, actions: LndActions)
        ensures
            *final(self) == (LndSettings {
                open: if actions.save {
                    old(self).open
                } else {
                    actions.open && !actions.cancel
                },
                ..*old(self)
            }),
    {
        if !actions.save {
            self.open = actions.open && !actions.cancel;
        }
    }
}

/// A node that was found can be paired exactly where none of its identifier is
/// paired. A paired one has moved exactly where its fingerprint is the same and
/// it is reached at other addresses.
pub proof fn law_found_node_is_told_by_identifier_and_fingerprint(
    peers: Seq<PeerNode>,
    found: &PeerNode,
)
    ensures
        standing_of(peers, found) == Standing::New <==> forall|i: int|
            0 <= i < peers.len() ==> (#[trigger] peers[i]).node_id@ != found.node_id@,
        forall|i: int|
            #![trigger peers[i]]
            0 <= i < peers.len() && peers[i].node_id@ == found.node_id@ && (forall|j: int|
                0 <= j < i ==> (#[trigger] peers[j]).node_id@ != found.node_id@) ==> (standing_of(
                peers,
                found,
            ) == Standing::Moved <==> peers[i].fingerprint@ == found.fingerprint@ && canonical_of(
                peers[i].canonical@,
            ) != canonical_of(found.canonical@)),
{
    lemma_first_node(peers, found.node_id@, 0);
}

/// The place of a node is the first that has its identifier.
proof fn lemma_first_node(peers: Seq<PeerNode>, id: Seq<char>, from: int)
    requires
        0 <= from <= peers.len(),
    ensures
        match node_place(peers, id, from) {
            Some(i) => from <= i < peers.len() && peers[i].node_id@ == id && forall|j: int|
                from <= j < i ==> (#[trigger] peers[j]).node_id@ != id,
            None => forall|j: int| from <= j < peers.len() ==> (#[trigger] peers[j]).node_id@ != id,
        },
    decreases peers.len() - from,
{
    if from < peers.len() && peers[from].node_id@ != id {
        lemma_first_node(peers, id, from + 1);
    }
}

/// Addresses without a canonical form do not count; the others count in their
/// order.
pub proof fn law_addresses_without_a_form_do_not_count(
    forms: Seq<Option<String>>,
    form: Option<String>,
)
    ensures
        form is None ==> canonical_of(forms.push(form)) == canonical_of(forms),
        form matches Some(f) ==> canonical_of(forms.push(form)) == canonical_of(forms).push(f@),
        forms.len() == 0 ==> canonical_of(forms).len() == 0,
{
    assert(forms.push(form).drop_last() =~= forms);
}

} // verus!
