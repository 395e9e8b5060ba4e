//! Connections through a SOCKS5 proxy (RFC 1928): which addresses can be asked
//! for, and how a CONNECT request is written.
//!
//! Host names are always handed to the proxy as names, so that nothing is
//! resolved outside it.
use crate::address::{Multiaddr, Protocol};
use crate::onion::onion_host;
use vstd::prelude::*;

verus! {

/// An IP address, as its octets.
#[derive(Debug, Clone, Copy, PartialEq, Eq)]
pub enum IpAddr {
    V4([u8; 4]),
    V6([u8; 16]),
}

/// The target of a CONNECT request.
#[derive(Debug, PartialEq, Eq)]
pub enum Target {
    Domain(String, u16),
    Ip(IpAddr, u16),
}

/// The value of a [`Target`].
pub enum TargetView {
    Domain(Seq<char>, u16),
    Ipv4(Seq<u8>, u16),
    Ipv6(Seq<u8>, u16),
}

impl View for Target {
    type V = TargetView;

    open spec fn view(&self) -> TargetView {
        match *self {
            Target::Domain(host, port) => TargetView::Domain(host@, port),
            Target::Ip(IpAddr::V4(ip), port) => TargetView::Ipv4(ip@, port),
            Target::Ip(IpAddr::V6(ip), port) => TargetView::Ipv6(ip@, port),
        }
    }
}

/// The value of a target that may be missing.
pub open spec fn target_view(target: Option<Target>) -> Option<TargetView> {
    match target {
        Some(t) => Some(t@),
        None => None,
    }
}

/// Why no connection could be had from the proxy.
#[derive(Debug, Clone, Copy, PartialEq, Eq)]
pub enum SocksError {
    /// The host name does not fit in the one byte of its length.
    HostNameTooLong,
    /// The proxy does not accept clients without authentication; its answer.
    MethodRejected(u8, u8),
    /// The proxy could not connect; its reply code.
    ConnectFailed(u8),
    /// The proxy's reply names an address type that there is not.
    UnknownAddressType(u8),
    /// The handshake was over already.
    HandshakeOver,
}

/// The class of a failed connection.
#[derive(Debug, Clone, Copy, PartialEq, Eq)]
pub enum ErrorKind {
    InvalidInput,
    ConnectionRefused,
    Other,
}

impl SocksError {
    /// The class of this error: a name that is too long is the caller's fault, a
    /// reply code is the proxy's refusal.
    pub open spec fn spec_kind(self) -> ErrorKind {
        match self {
            SocksError::HostNameTooLong => ErrorKind::InvalidInput,
            SocksError::ConnectFailed(_) => ErrorKind::ConnectionRefused,
            _ => ErrorKind::Other,
        }
    }

    /// The class of this error.
    pub fn kind(&self) -> (kind: ErrorKind)
        ensures
            kind == self.spec_kind(),
    {
        match *self {
            SocksError::HostNameTooLong => ErrorKind::InvalidInput,
            SocksError::ConnectFailed(_) => ErrorKind::ConnectionRefused,
            _ => ErrorKind::Other,
        }
    }
}

/// The port of the second component, if that is `/tcp`.
pub open spec fn tcp_port(components: Seq<crate::address::ProtocolView>) -> Option<u16> {
    if components.len() > 1 {
        match components[1] {
            crate::address::ProtocolView::Tcp(port) => Some(port),
            _ => None,
        }
    } else {
        None
    }
}

/// The target that the leading components of an address name: an onion service,
/// or a host or IP address with a TCP port.
pub open spec fn target(components: Seq<crate::address::ProtocolView>) -> Option<TargetView> {
    if components.len() == 0 {
        None
    } else {
        match (components[0], tcp_port(components)) {
            (crate::address::ProtocolView::Onion3 { hash, port }, _) => Some(
                TargetView::Domain(crate::onion::onion_host_name(hash), port),
            ),
            (crate::address::ProtocolView::Dns(host), Some(port)) => Some(
                TargetView::Domain(host, port),
            ),
            (crate::address::ProtocolView::Dns4(host), Some(port)) => Some(
                TargetView::Domain(host, port),
            ),
            (crate::address::ProtocolView::Dns6(host), Some(port)) => Some(
                TargetView::Domain(host, port),
            ),
            (crate::address::ProtocolView::Ip4(ip), Some(port)) => Some(
                TargetView::Ipv4(ip, port),
            ),
            (crate::address::ProtocolView::Ip6(ip), Some(port)) => Some(
                TargetView::Ipv6(ip, port),
            ),
            _ => None,
        }
    }
}

/// The port of the second component, if that is `/tcp`.
fn second_tcp_port(protocols: &[Protocol]) -> (port: Option<u16>)
    ensures
        port == tcp_port(crate::address::protocol_views(protocols@)),
{
    if protocols.len() > 1 {
        match &protocols[1] {
            Protocol::Tcp(port) => Some(*port),
            _ => None,
        }
    } else {
        None
    }
}

/// The target that a list of components names, if it names one.
pub fn target_of_protocols(protocols: &[Protocol]) -> (found: Option<Target>)
    ensures
        target_view(found) == target(crate::address::protocol_views(protocols@)),
{
    if protocols.len() == 0 {
        return None;
    }
    let port = second_tcp_port(protocols);
    match &protocols[0] {
        Protocol::Onion3 { hash, port } => Some(Target::Domain(onion_host(hash), *port)),
        Protocol::Dns(host) | Protocol::Dns4(host) | Protocol::Dns6(host) => match port {
            Some(port) => Some(Target::Domain(host.clone(), port)),
            None => None,
        },
        Protocol::Ip4(ip) => match port {
            Some(port) => Some(Target::Ip(IpAddr::V4(*ip), port)),
            None => None,
        },
        Protocol::Ip6(ip) => match port {
            Some(port) => Some(Target::Ip(IpAddr::V6(*ip), port)),
            None => None,
        },
        _ => None,
    }
}

/// Extracts the target from the leading components of `addr`; those that follow,
/// such as `/ws`, `/wss` or `/p2p`, make no difference.
pub fn target_of(addr: &Multiaddr) -> (found: Option<Target>)
    ensures
        target_view(found) == target(addr.components()),
{
    let protocols = addr.protocols();
    target_of_protocols(protocols.as_slice())
}

impl TargetView {
    /// The target can be written down: a name's bytes can be counted in one byte.
    pub open spec fn encodable(self) -> bool {
        self matches TargetView::Domain(host, _) ==> vstd::utf8::encode_utf8(host).len() <= 255
    }

    /// IP addresses have four or sixteen octets.
    pub open spec fn well_formed(self) -> bool {
        match self {
            TargetView::Domain(_, _) => true,
            TargetView::Ipv4(ip, _) => ip.len() == 4,
            TargetView::Ipv6(ip, _) => ip.len() == 16,
        }
    }

    /// The port.
    pub open spec fn port(self) -> u16 {
        match self {
            TargetView::Domain(_, port) => port,
            TargetView::Ipv4(_, port) => port,
            TargetView::Ipv6(_, port) => port,
        }
    }

    /// The address type and the address: 3, a length and a name; 1 and four
    /// octets; 4 and sixteen octets.
    pub open spec fn address(self) -> Seq<u8> {
        match self {
            TargetView::Domain(host, _) => seq![
                3u8,
                vstd::utf8::encode_utf8(host).len() as u8,
            ] + vstd::utf8::encode_utf8(host),
            TargetView::Ipv4(ip, _) => seq![1u8] + ip,
            TargetView::Ipv6(ip, _) => seq![4u8] + ip,
        }
    }

    /// The CONNECT request for this target: version 5, command 1, a reserved
    /// byte, the address and the port, most significant byte first.
    pub open spec fn request(self) -> Seq<u8> {
        seq![5u8, 1u8, 0u8] + self.address() + seq![
            (self.port() / 256) as u8,
            (self.port() % 256) as u8,
        ]
    }
}

/// Encodes a CONNECT request (RFC 1928, section 4).
pub fn connect_request(target: &Target) -> (request: Result<Vec<u8>, SocksError>)
    ensures
        request is Ok <==> target@.encodable(),
        request matches Ok(bytes) ==> bytes@ == target@.request(),
        request matches Err(error) ==> error == SocksError::HostNameTooLong,
{
    let mut request: Vec<u8> = vec![0x05, 0x01, 0x00];
    let port: u16 = match target {
        Target::Domain(host, port) => {
            let name = host.as_str().as_bytes();
            if name.len() > 255 {
                return Err(SocksError::HostNameTooLong);
            }
            request.push(0x03);
            request.push(name.len() as u8);
            request.extend_from_slice(name);
            *port
        },
        Target::Ip(IpAddr::V4(ip), port) => {
            request.push(0x01);
            request.extend_from_slice(ip.as_slice());
            *port
        },
        Target::Ip(IpAddr::V6(ip), port) => {
            request.push(0x04);
            request.extend_from_slice(ip.as_slice());
            *port
        },
    };
    request.push((port / 256) as u8);
    request.push((port % 256) as u8);
    assert(request@ =~= target@.request());
    Ok(request)
}

/// `From<&str>` of `String`: an owned copy of the text.
pub assume_specification<'a>[ <String as From<&'a str>>::from ](text: &str) -> (owned: String)
    ensures
        owned@ == text@,
;

/// `From<T>` of `T`: the value itself. A proxy that is given as a `String` is
/// converted by it.
pub assume_specification<T>[ <T as From<T>>::from ](value: T) -> (same: T)
    ensures
        same == value,
;

/// A transport that reaches every peer through one SOCKS5 proxy.
pub struct Socks5Transport {
    proxy: String,
}

/// A connection to be made: the proxy to ask, and the target to ask for.
#[derive(Debug)]
pub struct Dial {
    pub proxy: String,
    pub target: Target,
}

impl Socks5Transport {
    /// `host:port` of the proxy.
    pub closed spec fn proxy(self) -> String {
        self.proxy
    }

    /// `proxy` is `host:port` of the SOCKS5 server, resolved on every dial so a
    /// Kubernetes service name keeps working across proxy restarts.
    pub fn new<P: Into<String>>(proxy: P) -> (transport: Self)
        ensures
            call_ensures(<P as Into<String>>::into, (proxy,), transport.proxy()),
    {
        Self { proxy: proxy.into() }
    }

    /// How to reach `addr`; `None` where the proxy cannot be asked for it.
    pub fn dial(&self, addr: &Multiaddr) -> (dial: Option<Dial>)
        ensures
            dial is Some <==> target(addr.components()) is Some,
            dial matches Some(d) ==> d.proxy@ == self.proxy()@ && target(addr.components()) == Some(
                d.target@,
            ),
    {
        match target_of(addr) {
            Some(target) => Some(Dial { proxy: self.proxy.clone(), target }),
            None => None,
        }
    }
}

/// A request tells its target: requests for different targets differ.
pub proof fn law_request_tells_target(a: TargetView, b: TargetView)
    requires
        a.well_formed(),
        b.well_formed(),
        a.encodable(),
        b.encodable(),
        a.request() == b.request(),
    ensures
        a == b,
{
    let ra = a.request();
    let rb = b.request();
    assert(ra[3] == a.address()[0] && rb[3] == b.address()[0]);
    assert(a.address() =~= ra.subrange(3, ra.len() - 2));
    assert(b.address() =~= rb.subrange(3, rb.len() - 2));
    assert(ra[ra.len() - 2] == (a.port() / 256) as u8 && ra[ra.len() - 1] == (a.port() % 256) as u8);
    assert(rb[rb.len() - 2] == (b.port() / 256) as u8 && rb[rb.len() - 1] == (b.port() % 256) as u8);
    assert(a.port() == b.port());
    match (a, b) {
        (TargetView::Domain(x, _), TargetView::Domain(y, _)) => {
            let n = a.address().len() as int;
            assert(vstd::utf8::encode_utf8(x) =~= a.address().subrange(2, n));
            assert(vstd::utf8::encode_utf8(y) =~= b.address().subrange(2, n));
            vstd::utf8::encode_utf8_decode_utf8(x);
            vstd::utf8::encode_utf8_decode_utf8(y);
        },
        (TargetView::Ipv4(x, _), TargetView::Ipv4(y, _)) => {
            assert(x =~= a.address().subrange(1, 5));
            assert(y =~= b.address().subrange(1, 5));
        },
        (TargetView::Ipv6(x, _), TargetView::Ipv6(y, _)) => {
            assert(x =~= a.address().subrange(1, 17));
            assert(y =~= b.address().subrange(1, 17));
        },
        _ => {},
    }
}

/// The proxy can tell where a request ends: none is the beginning of another.
pub proof fn law_no_request_begins_another(a: TargetView, b: TargetView)
    requires
        a.well_formed(),
        b.well_formed(),
        a.encodable(),
        b.encodable(),
        a.request().is_prefix_of(b.request()),
    ensures
        a == b,
{
    let ra = a.request();
    let rb = b.request();
    assert(forall|i: int| 0 <= i < ra.len() ==> ra[i] == rb.subrange(0, ra.len() as int)[i]);
    assert(ra[3] == a.address()[0] && rb[3] == b.address()[0]);
    assert(ra[3] == rb[3]);
    if a is Domain && b is Domain {
        assert(ra[4] == a.address()[1] && rb[4] == b.address()[1]);
        assert(ra[4] == rb[4]);
    }
    assert(ra.len() == rb.len());
    assert(ra =~= rb);
    law_request_tells_target(a, b);
}

/// Whether a component names a host rather than giving its IP address, and the
/// name.
pub open spec fn host_name(component: crate::address::ProtocolView) -> Option<Seq<char>> {
    match component {
        crate::address::ProtocolView::Onion3 { hash, .. } => Some(
            crate::onion::onion_host_name(hash),
        ),
        crate::address::ProtocolView::Dns(host) => Some(host),
        crate::address::ProtocolView::Dns4(host) => Some(host),
        crate::address::ProtocolView::Dns6(host) => Some(host),
        _ => None,
    }
}

/// Names are resolved by the proxy alone: the request for an address that begins
/// with a name is of type 3 and holds that name, byte by byte; only an address
/// that begins with an IP address asks for one.
pub proof fn law_names_go_to_the_proxy(components: Seq<crate::address::ProtocolView>)
    requires
        target(components) is Some,
        target(components).unwrap().encodable(),
    ensures
        ({
            let request = target(components).unwrap().request();
            match host_name(components[0]) {
                Some(name) => {
                    let n = vstd::utf8::encode_utf8(name).len() as int;
                    &&& request[3] == 3
                    &&& request[4] == n
                    &&& request.subrange(5, 5 + n) == vstd::utf8::encode_utf8(name)
                },
                None => request[3] == 1 || request[3] == 4,
            }
        }),
{
    let t = target(components).unwrap();
    assert(t.request()[3] == t.address()[0]);
    if let Some(name) = host_name(components[0]) {
        let bytes = vstd::utf8::encode_utf8(name);
        assert(t.request()[4] == t.address()[1]);
        assert(t.request().subrange(5, 5 + bytes.len() as int) =~= bytes);
    }
}

/// What follows the leading components makes no difference: neither `/ws`,
/// `/wss` or `/p2p` nor anything else changes the target.
pub proof fn law_trailing_components_do_not_matter(
    components: Seq<crate::address::ProtocolView>,
    trailing: Seq<crate::address::ProtocolView>,
)
    requires
        components.len() >= 2 || (components.len() == 1
            && components[0] is Onion3),
    ensures
        target(components + trailing) == target(components),
{
}

/// An onion service can always be asked for: its name takes 62 bytes.
pub proof fn law_onion_services_are_encodable(components: Seq<crate::address::ProtocolView>)
    requires
        components.len() > 0,
        components[0] matches crate::address::ProtocolView::Onion3 { hash, .. } && hash.len() == 35,
    ensures
        target(components) matches Some(t) && t.encodable() && t.request().len() == 69,
{
    let hash = components[0]->hash;
    crate::onion::lemma_onion_host_name_is_ascii(hash);
    vstd::utf8::is_ascii_chars_encode_utf8(crate::onion::onion_host_name(hash));
}

} // verus!
