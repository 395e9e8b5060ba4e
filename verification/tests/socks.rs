use swap_market_data::address::{Multiaddr, Protocol};
use swap_market_data::handshake::{Action, Handshake};
use swap_market_data::onion::onion_host;
use swap_market_data::socks::{
    connect_request, target_of, target_of_protocols, ErrorKind, IpAddr, Socks5Transport,
    SocksError, Target,
};

const ONION: &str = "/onion3/3xl2zfur4tpebogsrgn3l7l2illzkhwi3755jplmycmn4q77nxsrl6qd:8888/p2p/12D3KooWGRvf7qVQDrNR5nfYD6rKrbgeTi9x8RrbdxbmsPvxL4mw";

fn addr(text: &str) -> Multiaddr {
    Multiaddr::parse(text).unwrap()
}

#[test]
fn onion3_target_is_a_domain() {
    assert_eq!(
        target_of(&addr(ONION)),
        Some(Target::Domain(
            "3xl2zfur4tpebogsrgn3l7l2illzkhwi3755jplmycmn4q77nxsrl6qd.onion".into(),
            8888
        ))
    );
}

#[test]
fn dns_and_ip_targets() {
    let wss = addr("/dns4/discovery.eigenwallet.org/tcp/443/wss");
    assert_eq!(
        target_of(&wss),
        Some(Target::Domain("discovery.eigenwallet.org".into(), 443))
    );
    let ip = addr("/ip4/1.2.3.4/tcp/9939");
    assert_eq!(
        target_of(&ip),
        Some(Target::Ip(IpAddr::V4([1, 2, 3, 4]), 9939))
    );
    let udp = addr("/ip4/1.2.3.4/udp/9939/quic-v1");
    assert_eq!(target_of(&udp), None);
}

#[test]
fn domain_connect_request_encoding() {
    let req = connect_request(&Target::Domain("ab.onion".into(), 443)).unwrap();
    assert_eq!(
        req,
        [&[5, 1, 0, 3, 8][..], b"ab.onion", &443u16.to_be_bytes()].concat()
    );
}

#[test]
fn other_names_and_addresses_are_targets_too() {
    assert_eq!(
        target_of(&addr("/dns/a.org/tcp/1")),
        Some(Target::Domain("a.org".into(), 1))
    );
    assert_eq!(
        target_of(&addr("/dns6/b.org/tcp/65535/ws")),
        Some(Target::Domain("b.org".into(), 65535))
    );
    let mut loopback = [0u8; 16];
    loopback[15] = 1;
    assert_eq!(
        target_of(&addr("/ip6/::1/tcp/9")),
        Some(Target::Ip(IpAddr::V6(loopback), 9))
    );
}

#[test]
fn what_is_no_target() {
    assert_eq!(target_of_protocols(&[]), None);
    assert_eq!(target_of_protocols(&[Protocol::Dns("a".into())]), None);
    assert_eq!(target_of_protocols(&[Protocol::Tcp(1), Protocol::Dns("a".into())]), None);
    assert_eq!(target_of(&addr("/dnsaddr/a.org/tcp/1")), None);
    assert_eq!(target_of(&addr("/dns4/a.org/udp/1")), None);
    assert_eq!(target_of(&addr("/ip4/1.2.3.4")), None);
}

#[test]
fn trailing_components_do_not_matter() {
    let short = addr("/dns4/a.org/tcp/443");
    for suffix in ["/ws", "/wss", "/p2p/12D3KooWGRvf7qVQDrNR5nfYD6rKrbgeTi9x8RrbdxbmsPvxL4mw"] {
        let long = addr(&format!("/dns4/a.org/tcp/443{}", suffix));
        assert_eq!(target_of(&long), target_of(&short));
    }
}

#[test]
fn onion_hosts_are_base32_in_lower_case() {
    let zeros = onion_host(&[0; 35]);
    assert_eq!(zeros, format!("{}.onion", "a".repeat(56)));
    let ones = onion_host(&[255; 35]);
    assert_eq!(ones, format!("{}.onion", "7".repeat(56)));
    let mut hash = [0u8; 35];
    hash[0] = 0b0100_0110;
    hash[34] = 3;
    let mixed = onion_host(&hash);
    assert_eq!(mixed, format!("iy{}d.onion", "a".repeat(53)));
}

#[test]
fn ip_requests_hold_the_octets() {
    let v4 = connect_request(&Target::Ip(IpAddr::V4([1, 2, 3, 4]), 0x1234)).unwrap();
    assert_eq!(v4, vec![5, 1, 0, 1, 1, 2, 3, 4, 0x12, 0x34]);
    let octets = [9u8, 8, 7, 6, 5, 4, 3, 2, 1, 0, 11, 12, 13, 14, 15, 16];
    let v6 = connect_request(&Target::Ip(IpAddr::V6(octets), 1)).unwrap();
    assert_eq!(v6, [&[5, 1, 0, 4][..], &octets, &[0, 1]].concat());
}

#[test]
fn a_name_takes_at_most_255_bytes() {
    let longest = connect_request(&Target::Domain("x".repeat(255), 1)).unwrap();
    assert_eq!(longest[4], 255);
    assert_eq!(longest.len(), 3 + 2 + 255 + 2);
    let too_long = connect_request(&Target::Domain("x".repeat(256), 1));
    assert_eq!(too_long, Err(SocksError::HostNameTooLong));
    // The limit is on bytes, not on characters.
    let accents = connect_request(&Target::Domain("\u{e9}".repeat(128), 1));
    assert_eq!(accents, Err(SocksError::HostNameTooLong));
}

#[test]
fn requests_for_different_targets_differ() {
    let targets = [
        Target::Domain("abc".into(), 1),
        Target::Domain("abd".into(), 1),
        Target::Domain("abcd".into(), 1),
        Target::Domain("abc".into(), 256),
        Target::Ip(IpAddr::V4([97, 98, 99, 0]), 1),
    ];
    for (i, a) in targets.iter().enumerate() {
        for (j, b) in targets.iter().enumerate() {
            assert_eq!(connect_request(a) == connect_request(b), i == j);
            // None is the beginning of another.
            let (x, y) = (connect_request(a).unwrap(), connect_request(b).unwrap());
            assert_eq!(y.starts_with(&x), i == j);
        }
    }
}

#[test]
fn the_transport_asks_its_proxy() {
    let transport = Socks5Transport::new("tor:9050");
    let dial = transport.dial(&addr("/dns4/a.org/tcp/443/wss")).unwrap();
    assert_eq!(dial.proxy, "tor:9050");
    assert_eq!(dial.target, Target::Domain("a.org".into(), 443));
    assert!(transport.dial(&addr("/ip4/1.2.3.4/udp/1")).is_none());
    let owned = Socks5Transport::new(String::from("proxy:1"));
    assert_eq!(owned.dial(&addr(ONION)).unwrap().proxy, "proxy:1");
}

#[test]
fn errors_have_kinds() {
    assert_eq!(SocksError::HostNameTooLong.kind(), ErrorKind::InvalidInput);
    assert_eq!(SocksError::ConnectFailed(5).kind(), ErrorKind::ConnectionRefused);
    assert_eq!(SocksError::MethodRejected(5, 255).kind(), ErrorKind::Other);
    assert_eq!(SocksError::UnknownAddressType(2).kind(), ErrorKind::Other);
    assert_eq!(SocksError::HandshakeOver.kind(), ErrorKind::Other);
}

/// Runs a handshake on what the proxy sends: what the client sent, how it ended,
/// and how much of the stream it took. `None` where the stream ran dry.
fn drive(target: Target, stream: &[u8]) -> (Vec<u8>, Option<Result<usize, SocksError>>) {
    let (mut handshake, mut action) = Handshake::start(target);
    let mut sent = Vec::new();
    let mut taken = 0;
    loop {
        match action {
            Action::Exchange { send, receive } => {
                sent.extend_from_slice(&send);
                if stream.len() < taken + receive {
                    return (sent, None);
                }
                action = handshake.advance(&stream[taken..taken + receive]);
                taken += receive;
            }
            Action::Established => return (sent, Some(Ok(taken))),
            Action::Fail(error) => return (sent, Some(Err(error))),
        }
    }
}

fn ip_target() -> Target {
    Target::Ip(IpAddr::V4([1, 2, 3, 4]), 80)
}

#[test]
fn a_handshake_takes_the_reply_and_no_more() {
    let request = [5, 1, 0, 1, 1, 2, 3, 4, 0, 80];
    let all_sent = [&[5, 1, 0][..], &request].concat();

    let v4 = [&[5, 0, 5, 0, 0, 1][..], &[0; 6], b"payload"].concat();
    assert_eq!(drive(ip_target(), &v4), (all_sent.clone(), Some(Ok(12))));

    let v6 = [&[5, 0, 5, 0, 0, 4][..], &[0; 18], b"payload"].concat();
    assert_eq!(drive(ip_target(), &v6), (all_sent.clone(), Some(Ok(24))));

    let name = [&[5, 0, 5, 0, 0, 3, 5][..], b"proxy", &[0, 0], b"payload"].concat();
    assert_eq!(drive(ip_target(), &name), (all_sent.clone(), Some(Ok(14))));

    let long_name = [&[5, 0, 5, 0, 0, 3, 255][..], &[b'x'; 255], &[0, 0]].concat();
    assert_eq!(drive(ip_target(), &long_name), (all_sent, Some(Ok(264))));
}

#[test]
fn a_proxy_that_wants_authentication_is_left() {
    assert_eq!(
        drive(ip_target(), &[5, 255]),
        (vec![5, 1, 0], Some(Err(SocksError::MethodRejected(5, 255))))
    );
    assert_eq!(
        drive(ip_target(), &[4, 0]),
        (vec![5, 1, 0], Some(Err(SocksError::MethodRejected(4, 0))))
    );
}

#[test]
fn a_name_that_is_too_long_fails_once_the_method_is_chosen() {
    let target = Target::Domain("x".repeat(256), 1);
    assert_eq!(
        drive(target, &[5, 0]),
        (vec![5, 1, 0], Some(Err(SocksError::HostNameTooLong)))
    );
    let target = Target::Domain("x".repeat(256), 1);
    assert_eq!(
        drive(target, &[5, 2]),
        (vec![5, 1, 0], Some(Err(SocksError::MethodRejected(5, 2))))
    );
}

#[test]
fn a_refusal_and_an_unknown_address_type_are_told_apart() {
    let refused = drive(ip_target(), &[5, 0, 5, 4, 0, 9]).1;
    assert_eq!(refused, Some(Err(SocksError::ConnectFailed(4))));
    let unknown = drive(ip_target(), &[5, 0, 5, 0, 0, 9]).1;
    assert_eq!(unknown, Some(Err(SocksError::UnknownAddressType(9))));
}

#[test]
fn a_reply_that_breaks_off_ends_nothing() {
    assert_eq!(drive(ip_target(), &[5]).1, None);
    assert_eq!(drive(ip_target(), &[5, 0, 5, 0, 0]).1, None);
    assert_eq!(drive(ip_target(), &[5, 0, 5, 0, 0, 3]).1, None);
    assert_eq!(drive(ip_target(), &[5, 0, 5, 0, 0, 1, 0, 0, 0, 0, 0]).1, None);
}

#[test]
fn a_handshake_that_is_over_stays_so() {
    let over = Action::Fail(SocksError::HandshakeOver);
    let (mut failed, _) = Handshake::start(ip_target());
    assert_eq!(failed.advance(&[5, 255]), Action::Fail(SocksError::MethodRejected(5, 255)));
    assert_eq!(failed.advance(&[]), over);
    assert_eq!(failed.advance(&[5, 0]), over);

    let (mut done, _) = Handshake::start(ip_target());
    done.advance(&[5, 0]);
    done.advance(&[5, 0, 0, 1]);
    assert_eq!(done.advance(&[0; 6]), Action::Established);
    assert_eq!(done.advance(&[]), over);
}
