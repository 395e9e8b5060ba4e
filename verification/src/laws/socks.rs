//! Targets, requests and the handshake with a SOCKS5 proxy.
//!
//! Of a handshake, a law says what the calls of `advance` return one after the other:
//! each takes the handshake that the one before it has left.
use crate::address::{Multiaddr, Protocol, ProtocolView};
use crate::handshake::{Action, Handshake};
use crate::socks::{Dial, ErrorKind, IpAddr, Socks5Transport, SocksError, Target};
use vstd::prelude::*;

verus! {

/// An address that begins with an onion service is asked for by the name of that
/// service, at the port that the component names, whatever follows.
pub proof fn law_onion_services_are_asked_for_at_their_port(
    protocols: &[Protocol],
    found: Option<Target>,
)
    requires
        protocols@.len() > 0,
        protocols@[0] is Onion3,
        call_ensures(crate::socks::target_of_protocols, (protocols,), found),
    ensures
        found is Some,
        found->0 is Domain,
        found->0->Domain_0@ == crate::onion::onion_host_name(protocols@[0]->hash@),
        found->0->Domain_1 == protocols@[0]->Onion3_port,
{
}

/// An address that begins with a name or an IP address is asked for by that name or
/// those octets, at the port of the `/tcp` component that comes next; where none comes
/// next, it cannot be asked for. Nor can an address that begins with anything else.
pub proof fn law_hosts_are_asked_for_at_their_tcp_port(
    protocols: &[Protocol],
    found: Option<Target>,
)
    requires
        protocols@.len() > 0 ==> !(protocols@[0] is Onion3),
        call_ensures(crate::socks::target_of_protocols, (protocols,), found),
    ensures
        found is Some <==> {
            &&& protocols@.len() >= 2
            &&& protocols@[1] is Tcp
            &&& protocols@[0] is Dns || protocols@[0] is Dns4 || protocols@[0] is Dns6
                || protocols@[0] is Ip4 || protocols@[0] is Ip6
        },
        found is Some ==> {
            let port = protocols@[1]->Tcp_0;
            match protocols@[0] {
                Protocol::Dns(host) => found->0 is Domain && found->0->Domain_0@ == host@
                    && found->0->Domain_1 == port,
                Protocol::Dns4(host) => found->0 is Domain && found->0->Domain_0@ == host@
                    && found->0->Domain_1 == port,
                Protocol::Dns6(host) => found->0 is Domain && found->0->Domain_0@ == host@
                    && found->0->Domain_1 == port,
                Protocol::Ip4(ip) => found->0 is Ip && found->0->Ip_0 is V4
                    && found->0->Ip_0->V4_0@ == ip@ && found->0->Ip_1 == port,
                Protocol::Ip6(ip) => found->0 is Ip && found->0->Ip_0 is V6
                    && found->0->Ip_0->V6_0@ == ip@ && found->0->Ip_1 == port,
                _ => false,
            }
        },
{
    let views = crate::address::protocol_views(protocols@);
    if protocols@.len() > 0 {
        assert(views[0] == protocols@[0]@);
    }
    if protocols@.len() > 1 {
        assert(views[1] == protocols@[1]@);
    }
}

/// The port of a target.
pub open spec fn port_of(target: Target) -> u16 {
    match target {
        Target::Domain(_, port) => port,
        Target::Ip(_, port) => port,
    }
}

/// The same of an address, told by its components.
pub proof fn law_the_target_of_an_address(
    addr: Multiaddr,
    components: Seq<ProtocolView>,
    found: Option<Target>,
)
    requires
        crate::address::multiaddr_protocols(addr@) == Some(components),
        call_ensures(crate::socks::target_of, (&addr,), found),
    ensures
        components.len() == 0 ==> found is None,
        components.len() > 0 ==> match components[0] {
            ProtocolView::Onion3 { hash, port } => found is Some && found->0 is Domain
                && found->0->Domain_0@ == crate::onion::onion_host_name(hash) && port_of(found->0)
                == port,
            ProtocolView::Dns(host) | ProtocolView::Dns4(host) | ProtocolView::Dns6(host) => {
                &&& found is Some <==> components.len() > 1 && components[1] is Tcp
                &&& found is Some ==> found->0 is Domain && found->0->Domain_0@ == host
                    && port_of(found->0) == components[1]->Tcp_0
            },
            ProtocolView::Ip4(ip) => {
                &&& found is Some <==> components.len() > 1 && components[1] is Tcp
                &&& found is Some ==> found->0 is Ip && found->0->Ip_0 is V4
                    && found->0->Ip_0->V4_0@ == ip && port_of(found->0) == components[1]->Tcp_0
            },
            ProtocolView::Ip6(ip) => {
                &&& found is Some <==> components.len() > 1 && components[1] is Tcp
                &&& found is Some ==> found->0 is Ip && found->0->Ip_0 is V6
                    && found->0->Ip_0->V6_0@ == ip && port_of(found->0) == components[1]->Tcp_0
            },
            _ => found is None,
        },
{
}

/// Addresses whose targets agree are for the same port: where an address is changed in
/// its port alone, its target changes.
pub proof fn law_addresses_of_other_ports_have_other_targets(
    a: &[Protocol],
    b: &[Protocol],
    found_a: Option<Target>,
    found_b: Option<Target>,
)
    requires
        a@.len() > 0,
        b@.len() > 0,
        a@[0] is Onion3 && b@[0] is Onion3 && a@[0]->Onion3_port != b@[0]->Onion3_port || (
        a@.len() > 1 && b@.len() > 1 && !(a@[0] is Onion3) && !(b@[0] is Onion3) && a@[1] is Tcp
            && b@[1] is Tcp && a@[1]->Tcp_0 != b@[1]->Tcp_0),
        call_ensures(crate::socks::target_of_protocols, (a,), found_a),
        call_ensures(crate::socks::target_of_protocols, (b,), found_b),
        found_a is Some,
        found_b is Some,
    ensures
        port_of(found_a->0) != port_of(found_b->0),
        found_a != found_b,
{
    if a@[0] is Onion3 {
        law_onion_services_are_asked_for_at_their_port(a, found_a);
        law_onion_services_are_asked_for_at_their_port(b, found_b);
    } else {
        law_hosts_are_asked_for_at_their_tcp_port(a, found_a);
        law_hosts_are_asked_for_at_their_tcp_port(b, found_b);
    }
}

/// A request begins with version 5, command CONNECT and a reserved zero, and ends with
/// the port, most significant byte first. Between them stand, for a name, 3, the number
/// of its bytes and these bytes; for an IP address, 1 and four octets or 4 and sixteen.
/// Only a name of more than 255 bytes cannot be written down.
pub proof fn law_a_request_spells_its_target(
    target: Target,
    result: Result<Vec<u8>, SocksError>,
)
    requires
        call_ensures(crate::socks::connect_request, (&target,), result),
    ensures
        result is Err <==> target is Domain && vstd::utf8::encode_utf8(target->Domain_0@).len()
            > 255,
        result is Err ==> result->Err_0 == SocksError::HostNameTooLong,
        result matches Ok(request) ==> {
            let bytes = request@;
            let n = bytes.len() as int;
            &&& n >= 10 || target is Domain
            &&& n >= 7
            &&& bytes[0] == 5
            &&& bytes[1] == 1
            &&& bytes[2] == 0
            &&& 256 * bytes[n - 2] + bytes[n - 1] == port_of(target)
            &&& match target {
                Target::Domain(host, _) => {
                    &&& bytes[3] == 3
                    &&& bytes[4] == n - 7
                    &&& bytes.subrange(5, n - 2) == vstd::utf8::encode_utf8(host@)
                },
                Target::Ip(IpAddr::V4(ip), _) => {
                    &&& n == 10
                    &&& bytes[3] == 1
                    &&& bytes.subrange(4, 8) == ip@
                },
                Target::Ip(IpAddr::V6(ip), _) => {
                    &&& n == 22
                    &&& bytes[3] == 4
                    &&& bytes.subrange(4, 20) == ip@
                },
            }
        },
{
    if let Ok(request) = result {
        let view = target@;
        let bytes = request@;
        let n = bytes.len() as int;
        assert(bytes == view.request());
        assert(bytes[3] == view.address()[0]);
        assert(bytes[n - 2] == (view.port() / 256) as u8 && bytes[n - 1] == (view.port() % 256) as u8);
        match target {
            Target::Domain(host, _) => {
                let name = vstd::utf8::encode_utf8(host@);
                assert(bytes[4] == view.address()[1]);
                assert(bytes.subrange(5, n - 2) =~= name);
            },
            Target::Ip(IpAddr::V4(ip), _) => {
                assert(bytes.subrange(4, 8) =~= ip@);
            },
            Target::Ip(IpAddr::V6(ip), _) => {
                assert(bytes.subrange(4, 20) =~= ip@);
            },
        }
    }
}

/// From an address to the bytes on the wire: a request for an onion service ends with
/// the port that the address names, and one for a host with its TCP port.
pub proof fn law_the_request_for_an_address_ends_with_its_port(
    protocols: &[Protocol],
    found: Option<Target>,
    result: Result<Vec<u8>, SocksError>,
)
    requires
        call_ensures(crate::socks::target_of_protocols, (protocols,), found),
        found is Some,
        call_ensures(crate::socks::connect_request, (&found->0,), result),
        result is Ok,
    ensures
        result->Ok_0@.len() >= 7,
        256 * result->Ok_0@[result->Ok_0@.len() - 2] + result->Ok_0@[result->Ok_0@.len() - 1]
            == if protocols@[0] is Onion3 {
            protocols@[0]->Onion3_port
        } else {
            protocols@[1]->Tcp_0
        },
{
    law_a_request_spells_its_target(found->0, result);
    if protocols@.len() > 0 && protocols@[0] is Onion3 {
        law_onion_services_are_asked_for_at_their_port(protocols, found);
    } else {
        law_hosts_are_asked_for_at_their_tcp_port(protocols, found);
    }
}

/// A transport asks the proxy that it was made with, for the target that the address
/// names, and declines just the addresses that name none.
pub proof fn law_a_transport_asks_its_own_proxy(
    proxy: &str,
    transport: Socks5Transport,
    addr: Multiaddr,
    found: Option<Target>,
    dial: Option<Dial>,
)
    requires
        call_ensures(Socks5Transport::new::<&str>, (proxy,), transport),
        call_ensures(crate::socks::target_of, (&addr,), found),
        call_ensures(Socks5Transport::dial, (&transport, &addr), dial),
    ensures
        dial is Some <==> found is Some,
        dial is Some ==> {
            &&& dial->0.proxy@ == proxy@
            &&& port_of(dial->0.target) == port_of(found->0)
            &&& dial->0.target is Domain <==> found->0 is Domain
            &&& dial->0.target is Domain ==> dial->0.target->Domain_0@ == found->0->Domain_0@
            &&& dial->0.target is Ip ==> (dial->0.target->Ip_0 is V4 <==> found->0->Ip_0 is V4)
            &&& dial->0.target is Ip && dial->0.target->Ip_0 is V4 ==> dial->0.target->Ip_0->V4_0@
                == found->0->Ip_0->V4_0@
            &&& dial->0.target is Ip && dial->0.target->Ip_0 is V6 ==> dial->0.target->Ip_0->V6_0@
                == found->0->Ip_0->V6_0@
        },
{
}

/// The same of a proxy that is given as a `String`.
pub proof fn law_a_transport_asks_its_own_proxy_by_string(
    proxy: String,
    transport: Socks5Transport,
    addr: Multiaddr,
    dial: Option<Dial>,
)
    requires
        call_ensures(Socks5Transport::new::<String>, (proxy,), transport),
        call_ensures(Socks5Transport::dial, (&transport, &addr), dial),
        dial is Some,
    ensures
        dial->0.proxy@ == proxy@,
{
}

/// A name that is too long is the caller's fault, a reply code is the proxy's refusal,
/// and the rest is neither.
pub proof fn law_errors_have_their_kinds(error: SocksError, kind: ErrorKind)
    requires
        call_ensures(SocksError::kind, (&error,), kind),
    ensures
        kind is InvalidInput <==> error is HostNameTooLong,
        kind is ConnectionRefused <==> error is ConnectFailed,
        kind is Other <==> error is MethodRejected || error is UnknownAddressType
            || error is HandshakeOver,
{
}

/// The client writes `sent` and reads `n` bytes.
pub open spec fn exchanges(action: Action, sent: Seq<u8>, n: int) -> bool {
    action matches Action::Exchange { send, receive } && send@ == sent && receive == n
}

/// A handshake begins with the greeting: version 5, one method, "no authentication". It
/// waits for two bytes.
pub proof fn law_the_greeting_comes_first(target: Target, started: (Handshake, Action))
    requires
        call_ensures(Handshake::start, (target,), started),
    ensures
        started.1 matches Action::Exchange { send, receive } && send@ == seq![5u8, 1u8, 0u8]
            && receive == 2,
{
}

/// Once the proxy has chosen version 5 without authentication, the request is sent, and
/// four bytes are waited for; a name that is too long ends the handshake then. Any other
/// choice ends it before, and is reported as it came.
pub proof fn law_the_request_follows_the_method(
    target: Target,
    started: (Handshake, Action),
    method: &[u8],
    action: Action,
    after: Handshake,
    request: Result<Vec<u8>, SocksError>,
)
    requires
        call_ensures(Handshake::start, (target,), started),
        call_ensures(crate::socks::connect_request, (&target,), request),
        method@.len() == 2,
        exists|handshake: &mut Handshake|
            *handshake == started.0 && *final(handshake) == after && #[trigger] call_ensures(
                Handshake::advance,
                (handshake, method),
                action,
            ),
    ensures
        method@[0] == 5 && method@[1] == 0 ==> match request {
            Ok(bytes) => exchanges(action, bytes@, 4),
            Err(_) => action == Action::Fail(SocksError::HostNameTooLong),
        },
        method@[0] != 5 || method@[1] != 0 ==> action == Action::Fail(
            SocksError::MethodRejected(method@[0], method@[1]),
        ),
{
}

/// What is left to read of the reply, told by its head: a bound IP address and port of
/// six or eighteen bytes, or the one byte of a name's length. A reply code other than
/// zero is reported as such, and an address type that there is not as such.
pub proof fn law_the_head_tells_what_is_left(
    target: Target,
    started: (Handshake, Action),
    method: &[u8],
    asked: Handshake,
    sent: Action,
    head: &[u8],
    action: Action,
    after: Handshake,
)
    requires
        call_ensures(Handshake::start, (target,), started),
        method@.len() == 2,
        exists|handshake: &mut Handshake|
            *handshake == started.0 && *final(handshake) == asked && #[trigger] call_ensures(
                Handshake::advance,
                (handshake, method),
                sent,
            ),
        sent is Exchange,
        head@.len() == 4,
        exists|handshake: &mut Handshake|
            *handshake == asked && *final(handshake) == after && #[trigger] call_ensures(
                Handshake::advance,
                (handshake, head),
                action,
            ),
    ensures
        head@[1] != 0 ==> action == Action::Fail(SocksError::ConnectFailed(head@[1])),
        head@[1] == 0 && head@[3] == 1 ==> exchanges(action, Seq::empty(), 6),
        head@[1] == 0 && head@[3] == 4 ==> exchanges(action, Seq::empty(), 18),
        head@[1] == 0 && head@[3] == 3 ==> exchanges(action, Seq::empty(), 1),
        head@[1] == 0 && head@[3] != 1 && head@[3] != 3 && head@[3] != 4 ==> action == Action::Fail(
            SocksError::UnknownAddressType(head@[3]),
        ),
{
}

/// The rest of the reply: after a name's length come that name and a port, and once
/// the bound address was read the connection stands. A handshake that has ended, well or
/// not, answers with an error.
pub proof fn law_the_bound_address_ends_the_handshake(
    target: Target,
    started: (Handshake, Action),
    method: &[u8],
    asked: Handshake,
    sent: Action,
    head: &[u8],
    told: Handshake,
    left: Action,
    rest: &[u8],
    action: Action,
    after: Handshake,
    more: &[u8],
    last: Action,
    end: Handshake,
)
    requires
        call_ensures(Handshake::start, (target,), started),
        method@.len() == 2,
        exists|handshake: &mut Handshake|
            *handshake == started.0 && *final(handshake) == asked && #[trigger] call_ensures(
                Handshake::advance,
                (handshake, method),
                sent,
            ),
        sent is Exchange,
        head@.len() == 4,
        exists|handshake: &mut Handshake|
            *handshake == asked && *final(handshake) == told && #[trigger] call_ensures(
                Handshake::advance,
                (handshake, head),
                left,
            ),
        left is Exchange,
        rest@.len() == left->receive,
        exists|handshake: &mut Handshake|
            *handshake == told && *final(handshake) == after && #[trigger] call_ensures(
                Handshake::advance,
                (handshake, rest),
                action,
            ),
        action is Exchange ==> more@.len() == action->receive,
        exists|handshake: &mut Handshake|
            *handshake == after && *final(handshake) == end && #[trigger] call_ensures(
                Handshake::advance,
                (handshake, more),
                last,
            ),
    ensures
        head@[3] != 3 ==> action == Action::Established,
        head@[3] == 3 ==> exchanges(action, Seq::empty(), rest@[0] + 2),
        head@[3] == 3 ==> last == Action::Established,
        head@[3] != 3 ==> last == Action::Fail(SocksError::HandshakeOver),
{
}

/// A handshake that was refused stays over.
pub proof fn law_a_refused_handshake_is_over(
    target: Target,
    started: (Handshake, Action),
    method: &[u8],
    refused: Handshake,
    refusal: Action,
    more: &[u8],
    action: Action,
    after: Handshake,
)
    requires
        call_ensures(Handshake::start, (target,), started),
        method@.len() == 2,
        exists|handshake: &mut Handshake|
            *handshake == started.0 && *final(handshake) == refused && #[trigger] call_ensures(
                Handshake::advance,
                (handshake, method),
                refusal,
            ),
        refusal is Fail,
        exists|handshake: &mut Handshake|
            *handshake == refused && *final(handshake) == after && #[trigger] call_ensures(
                Handshake::advance,
                (handshake, more),
                action,
            ),
    ensures
        action == Action::Fail(SocksError::HandshakeOver),
{
}

} // verus!
