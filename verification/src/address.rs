//! Peer ids and multiaddresses in their binary form.
use libp2p::multiaddr::Protocol as Component;
use vstd::prelude::*;

verus! {

/// What the collector tells apart among the components of a multiaddress.
#[derive(Debug)]
pub enum Protocol {
    /// `/onion3`: the public key, checksum and version of an onion service, and
    /// its port.
    Onion3 { hash: [u8; 35], port: u16 },
    Dns(String),
    Dns4(String),
    Dns6(String),
    Ip4([u8; 4]),
    Ip6([u8; 16]),
    Tcp(u16),
    /// Any other component, such as `/udp`, `/wss` or `/p2p`.
    Other,
}

/// The value of a [`Protocol`].
pub enum ProtocolView {
    Onion3 { hash: Seq<u8>, port: u16 },
    Dns(Seq<char>),
    Dns4(Seq<char>),
    Dns6(Seq<char>),
    Ip4(Seq<u8>),
    Ip6(Seq<u8>),
    Tcp(u16),
    Other,
}

impl View for Protocol {
    type V = ProtocolView;

    open spec fn view(&self) -> ProtocolView {
        match *self {
            Protocol::Onion3 { hash, port } => ProtocolView::Onion3 { hash: hash@, port },
            Protocol::Dns(host) => ProtocolView::Dns(host@),
            Protocol::Dns4(host) => ProtocolView::Dns4(host@),
            Protocol::Dns6(host) => ProtocolView::Dns6(host@),
            Protocol::Ip4(ip) => ProtocolView::Ip4(ip@),
            Protocol::Ip6(ip) => ProtocolView::Ip6(ip@),
            Protocol::Tcp(port) => ProtocolView::Tcp(port),
            Protocol::Other => ProtocolView::Other,
        }
    }
}

/// The values of a list of components.
pub open spec fn protocol_views(protocols: Seq<Protocol>) -> Seq<ProtocolView> {
    protocols.map_values(|p: Protocol| p@)
}

/// What is in a `String` that may be missing.
pub open spec fn text_view(text: Option<String>) -> Option<Seq<char>> {
    match text {
        Some(s) => Some(s@),
        None => None,
    }
}

/// The bytes are those of a peer id, as peers write it: a multihash of one byte for
/// the hash function, one for the length of the digest, and the digest. The function
/// is SHA-256, or none for a digest of at most 42 bytes.
pub open spec fn is_peer_id(bytes: Seq<u8>) -> bool {
    &&& bytes.len() >= 2
    &&& bytes.len() == 2 + bytes[1]
    &&& (bytes[0] == 0x12 && bytes[1] <= 64) || (bytes[0] == 0 && bytes[1] <= 42)
}

/// The text of the multiaddress with these bytes; `None` where they are none.
pub uninterp spec fn multiaddr_text(bytes: Seq<u8>) -> Option<Seq<char>>;

/// The components of the multiaddress with these bytes; `None` where they are
/// none.
pub uninterp spec fn multiaddr_protocols(bytes: Seq<u8>) -> Option<Seq<ProtocolView>>;

/// The bytes of the multiaddress that a text writes down; `None` where it writes
/// down none.
pub uninterp spec fn multiaddr_bytes(text: Seq<char>) -> Option<Seq<u8>>;

/// `libp2p::PeerId::from_bytes` and the `Display` of `libp2p::PeerId`: the bytes of
/// a peer id, as peers write it, are accepted and written in base 58. Nothing is
/// claimed of other bytes, some of which libp2p accepts for a peer id that is
/// written in other bytes.
#[verifier::external_body]
fn peer_id_to_string(bytes: &Vec<u8>) -> (text: Option<String>)
    requires
        is_peer_id(bytes@),
    ensures
        text is Some,
        text matches Some(s) ==> s@ == crate::base58::base58(bytes@),
{
    libp2p::PeerId::from_bytes(bytes).ok().map(|id| id.to_string())
}

/// `TryFrom<Vec<u8>>` and the `Display` of `libp2p::Multiaddr`. The result is a
/// function of the bytes alone; no more is claimed of it.
#[verifier::external_body]
fn multiaddr_to_string(bytes: &Vec<u8>) -> (text: Option<String>)
    ensures
        text_view(text) == multiaddr_text(bytes@),
{
    libp2p::Multiaddr::try_from(bytes.clone()).ok().map(|addr| addr.to_string())
}

/// `TryFrom<Vec<u8>>` and `iter` of `libp2p::Multiaddr`, each component with its
/// fields. The result is a function of the bytes alone; no more is claimed of it.
#[verifier::external_body]
fn multiaddr_iter(bytes: &Vec<u8>) -> (protocols: Option<Vec<Protocol>>)
    ensures
        protocols is Some <==> multiaddr_protocols(bytes@) is Some,
        protocols matches Some(list) ==> multiaddr_protocols(bytes@) == Some(
            protocol_views(list@),
        ),
{
    let addr = libp2p::Multiaddr::try_from(bytes.clone()).ok()?;
    Some(addr.iter().map(|p| match p {
        Component::Onion3(onion) => Protocol::Onion3 { hash: *onion.hash(), port: onion.port() },
        Component::Dns(host) => Protocol::Dns(host.into_owned()),
        Component::Dns4(host) => Protocol::Dns4(host.into_owned()),
        Component::Dns6(host) => Protocol::Dns6(host.into_owned()),
        Component::Ip4(ip) => Protocol::Ip4(ip.octets()),
        Component::Ip6(ip) => Protocol::Ip6(ip.octets()),
        Component::Tcp(port) => Protocol::Tcp(port),
        _ => Protocol::Other,
    }).collect())
}

/// `FromStr` and `to_vec` of `libp2p::Multiaddr`. The result is a function of the
/// text alone; no more is claimed of it.
#[verifier::external_body]
fn multiaddr_parse(text: &str) -> (bytes: Option<Vec<u8>>)
    ensures
        bytes is Some <==> multiaddr_bytes(text@) is Some,
        bytes matches Some(b) ==> multiaddr_bytes(text@) == Some(b@),
{
    text.parse::<libp2p::Multiaddr>().ok().map(|addr| addr.to_vec())
}

/// The identity of a peer.
#[derive(Debug)]
pub struct PeerId {
    bytes: Vec<u8>,
}

impl View for PeerId {
    type V = Seq<u8>;

    closed spec fn view(&self) -> Seq<u8> {
        self.bytes@
    }
}

impl Clone for PeerId {
    fn clone(&self) -> (copy: Self)
        ensures
            copy@ == self@,
    {
        proof {
            use_type_invariant(self);
        }
        PeerId { bytes: self.bytes.clone() }
    }
}

impl PeerId {
    #[verifier::type_invariant]
    spec fn well_formed(self) -> bool {
        is_peer_id(self@)
    }

    /// The text of this peer id.
    pub open spec fn text(self) -> Seq<char> {
        crate::base58::base58(self@)
    }

    /// The peer id with these bytes, if they are one as peers write it.
    pub fn from_bytes(bytes: Vec<u8>) -> (id: Option<PeerId>)
        ensures
            id is Some <==> is_peer_id(bytes@),
            id matches Some(p) ==> p@ == bytes@,
    {
        if bytes.len() < 2 || bytes.len() != 2 + bytes[1] as usize {
            return None;
        }
        let longest: u8 = match bytes[0] {
            0x12 => 64,
            0x00 => 42,
            _ => return None,
        };
        if bytes[1] <= longest {
            Some(PeerId { bytes })
        } else {
            None
        }
    }

    /// Whether both are the same peer.
    pub fn same_as(&self, other: &PeerId) -> (same: bool)
        ensures
            same == (self@ == other@),
    {
        if self.bytes.len() != other.bytes.len() {
            return false;
        }
        let mut i: usize = 0;
        while i < self.bytes.len()
            invariant
                self.bytes@.len() == other.bytes@.len(),
                i <= self.bytes@.len(),
                forall|j: int| 0 <= j < i ==> self.bytes@[j] == other.bytes@[j],
            decreases self.bytes@.len() - i,
        {
            if self.bytes[i] != other.bytes[i] {
                return false;
            }
            i += 1;
        }
        assert(self.bytes@ =~= other.bytes@);
        true
    }

    /// The peer id as text.
    pub fn to_text(&self) -> (text: String)
        ensures
            text@ == self.text(),
    {
        proof {
            use_type_invariant(self);
        }
        peer_id_to_string(&self.bytes).unwrap()
    }
}

/// A self-describing network address.
#[derive(Debug)]
pub struct Multiaddr {
    bytes: Vec<u8>,
}

impl View for Multiaddr {
    type V = Seq<u8>;

    closed spec fn view(&self) -> Seq<u8> {
        self.bytes@
    }
}

/// The bytes are those of a multiaddress.
pub open spec fn is_multiaddr(bytes: Seq<u8>) -> bool {
    multiaddr_text(bytes) is Some && multiaddr_protocols(bytes) is Some
}

impl Clone for Multiaddr {
    fn clone(&self) -> (copy: Self)
        ensures
            copy@ == self@,
    {
        proof {
            use_type_invariant(self);
        }
        Multiaddr { bytes: self.bytes.clone() }
    }
}

impl Multiaddr {
    #[verifier::type_invariant]
    spec fn well_formed(self) -> bool {
        is_multiaddr(self@)
    }

    /// The text of this address.
    pub open spec fn text(self) -> Seq<char> {
        multiaddr_text(self@).unwrap()
    }

    /// The components of this address, outermost first.
    pub open spec fn components(self) -> Seq<ProtocolView> {
        multiaddr_protocols(self@).unwrap()
    }

    /// The address with these bytes, if they are one.
    pub fn from_bytes(bytes: Vec<u8>) -> (addr: Option<Multiaddr>)
        ensures
            addr is Some <==> is_multiaddr(bytes@),
            addr matches Some(a) ==> a@ == bytes@,
    {
        if multiaddr_to_string(&bytes).is_some() && multiaddr_iter(&bytes).is_some() {
            Some(Multiaddr { bytes })
        } else {
            None
        }
    }

    /// The address that a text such as `/dns4/example.org/tcp/443/wss` writes
    /// down, if it writes down one.
    pub fn parse(text: &str) -> (addr: Option<Multiaddr>)
        ensures
            addr is Some <==> (multiaddr_bytes(text@) matches Some(bytes) && is_multiaddr(bytes)),
            addr matches Some(a) ==> multiaddr_bytes(text@) == Some(a@),
    {
        match multiaddr_parse(text) {
            Some(bytes) => Multiaddr::from_bytes(bytes),
            None => None,
        }
    }

    /// The address as text.
    pub fn to_text(&self) -> (text: String)
        ensures
            text@ == self.text(),
    {
        proof {
            use_type_invariant(self);
        }
        multiaddr_to_string(&self.bytes).unwrap()
    }

    /// The components of the address, outermost first.
    pub fn protocols(&self) -> (protocols: Vec<Protocol>)
        ensures
            protocol_views(protocols@) == self.components(),
    {
        proof {
            use_type_invariant(self);
        }
        multiaddr_iter(&self.bytes).unwrap()
    }

    /// The bytes of the address.
    pub fn as_bytes(&self) -> (bytes: &Vec<u8>)
        ensures
            bytes@ == self@,
    {
        &self.bytes
    }
}

/// A peer is told by the text of its id: different peers have different texts.
pub proof fn law_peer_id_text_tells_peer(a: PeerId, b: PeerId)
    requires
        a.text() == b.text(),
    ensures
        a@ == b@,
{
    crate::base58::law_base58_tells_bytes(a@, b@);
}

} // verus!
