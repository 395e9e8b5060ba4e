use swap_market_data::address::{Multiaddr, PeerId, Protocol};
use swap_market_data::api::{MakerQuote, Snapshot};
use swap_market_data::quote::RefundPolicyWire;
use swap_market_data::rendezvous::{
    any_onion, is_onion, resolve_rendezvous_addresses, select_route, unusable_hint, Route,
    RouteConflict,
};
use swap_market_data::status::{
    count_connected, count_nodes, Network, PollOutcome, StatusResponse, VersionCount,
};
use swap_market_data::time::Timestamp;
use swap_market_data::version::Version;

const ONION: &str = "/onion3/3xl2zfur4tpebogsrgn3l7l2illzkhwi3755jplmycmn4q77nxsrl6qd:8888";
const CLEARNET: &str = "/dns4/discovery.eigenwallet.org/tcp/443/wss";
const NOW: Timestamp = Timestamp { secs: 7, nanos: 0 };

fn addrs(texts: &[&str]) -> Vec<Multiaddr> {
    texts.iter().map(|text| Multiaddr::parse(text).unwrap()).collect()
}

fn texts(addrs: &[Multiaddr]) -> Vec<String> {
    addrs.iter().map(|addr| addr.to_text()).collect()
}

fn peer(n: u8) -> PeerId {
    PeerId::from_bytes(vec![0, 1, n]).unwrap()
}

fn row(version: Option<&str>, max_quantity_sat: u64) -> MakerQuote {
    MakerQuote {
        peer_id: "maker".to_string(),
        multiaddr: CLEARNET.to_string(),
        version: version.map(|v| v.to_string()),
        price_sat: 1,
        min_quantity_sat: 0,
        max_quantity_sat,
        refund_policy: RefundPolicyWire::FullRefund,
        reserve_proof: None,
        has_liquidity: max_quantity_sat > 0,
    }
}

fn count(version: &str, makers: usize) -> VersionCount {
    VersionCount { version: version.to_string(), makers }
}

#[test]
fn addresses_are_read_and_written() {
    let addr = Multiaddr::parse(CLEARNET).unwrap();
    assert_eq!(addr.to_text(), CLEARNET);
    assert_eq!(Multiaddr::from_bytes(addr.as_bytes().clone()).unwrap().to_text(), CLEARNET);
    let ip = Multiaddr::parse("/ip4/1.2.3.4/tcp/80").unwrap();
    assert_eq!(ip.as_bytes(), &vec![4, 1, 2, 3, 4, 6, 0, 80]);
    assert!(Multiaddr::parse("1.2.3.4").is_none());
    assert!(Multiaddr::parse("/nonsense").is_none());
    assert!(Multiaddr::from_bytes(vec![4, 1, 2]).is_none());
}

#[test]
fn components_come_with_their_fields() {
    let addr = Multiaddr::parse("/dns/a/tcp/1/dns4/b/dns6/c/ip4/1.2.3.4/ip6/::2/ws").unwrap();
    let protocols = addr.protocols();
    assert_eq!(protocols.len(), 7);
    assert!(matches!(&protocols[0], Protocol::Dns(host) if host == "a"));
    assert!(matches!(&protocols[1], Protocol::Tcp(1)));
    assert!(matches!(&protocols[2], Protocol::Dns4(host) if host == "b"));
    assert!(matches!(&protocols[3], Protocol::Dns6(host) if host == "c"));
    assert!(matches!(&protocols[4], Protocol::Ip4([1, 2, 3, 4])));
    assert!(matches!(&protocols[5], Protocol::Ip6(ip) if ip[15] == 2));
    assert!(matches!(&protocols[6], Protocol::Other));
    let onion = Multiaddr::parse(ONION).unwrap().protocols();
    assert!(matches!(&onion[0], Protocol::Onion3 { hash, port: 8888 } if hash[34] == 3));
}

#[test]
fn peer_ids_are_written_in_base_58() {
    let id = peer(5);
    assert_eq!(id.to_text(), "15W");
    assert!(id.same_as(&peer(5)));
    assert!(id.clone().same_as(&id));
    assert!(!id.same_as(&peer(6)));
    assert!(PeerId::from_bytes(vec![1, 2, 3]).is_none());
}

#[test]
fn peer_ids_have_a_known_hash_and_a_digest_of_its_length() {
    let of = |code: u8, len: u8| {
        let mut bytes = vec![code, len];
        bytes.extend(vec![7; usize::from(len)]);
        PeerId::from_bytes(bytes)
    };
    for (code, longest) in [(0x12, 64), (0x00, 42)] {
        for len in [0, 1, 32, longest] {
            let mut bytes = vec![code, len];
            bytes.extend(vec![7; usize::from(len)]);
            let outside = libp2p::PeerId::from_bytes(&bytes).unwrap();
            assert_eq!(of(code, len).unwrap().to_text(), outside.to_string());
        }
        assert!(of(code, longest + 1).is_none());
    }
    assert!(of(0x13, 32).is_none());
    assert!(PeerId::from_bytes(vec![]).is_none());
    assert!(PeerId::from_bytes(vec![0x12]).is_none());
    assert!(PeerId::from_bytes(vec![0x12, 2, 7]).is_none());
    assert!(PeerId::from_bytes(vec![0x12, 0, 7]).is_none());
}

#[test]
fn a_peer_id_has_one_binary_form() {
    // The hash function in ten bytes: libp2p reads 12 00, which is written otherwise.
    let padded = vec![0x92, 0x80, 0x80, 0x80, 0x80, 0x80, 0x80, 0x80, 0x80, 0x02, 0x00];
    let read = libp2p::PeerId::from_bytes(&padded).unwrap();
    assert_eq!(read.to_bytes(), vec![0x12, 0x00]);
    assert!(PeerId::from_bytes(padded).is_none());
    assert_eq!(PeerId::from_bytes(read.to_bytes()).unwrap().to_text(), read.to_string());
}

#[test]
fn versions_are_written_with_their_suffixes() {
    let text = |pre: &str, build: &str| {
        Version::new(1, 20, 300, pre.to_string(), build.to_string()).map(|v| v.clone().to_text())
    };
    assert_eq!(text("", ""), Some("1.20.300".to_string()));
    assert_eq!(text("rc.1", ""), Some("1.20.300-rc.1".to_string()));
    assert_eq!(text("", "007"), Some("1.20.300+007".to_string()));
    assert_eq!(text("a-b.0", "c"), Some("1.20.300-a-b.0+c".to_string()));
    // Leading zeros, empty identifiers and other characters are not accepted.
    assert_eq!(text("01", ""), None);
    assert_eq!(text("a..b", ""), None);
    assert_eq!(text("a.", ""), None);
    assert_eq!(text(".", ""), None);
    assert_eq!(text("", "a_b"), None);
    assert_eq!(text("0a", ""), Some("1.20.300-0a".to_string()));
    assert_eq!(text("0", ""), Some("1.20.300-0".to_string()));
}

#[test]
fn onion_addresses_are_recognised() {
    assert!(is_onion(&Multiaddr::parse(ONION).unwrap()));
    assert!(!is_onion(&Multiaddr::parse(CLEARNET).unwrap()));
    assert!(!any_onion(&[]));
    assert!(any_onion(&[Protocol::Other, Protocol::Onion3 { hash: [0; 35], port: 1 }]));
}

#[test]
fn the_route_follows_the_settings() {
    assert_eq!(select_route(false, None), Ok(Route::Clearnet));
    assert_eq!(select_route(true, None), Ok(Route::Tor));
    assert_eq!(
        select_route(false, Some("tor:9050".to_string())),
        Ok(Route::SocksProxy("tor:9050".to_string()))
    );
    assert_eq!(select_route(true, Some("tor:9050".to_string())), Err(RouteConflict));
}

#[test]
fn addresses_are_filtered_by_route() {
    let all = [CLEARNET, ONION, "/ip4/1.2.3.4/tcp/9939"];
    let resolve = |route: &Route| texts(&resolve_rendezvous_addresses(addrs(&all), vec![], route));
    assert_eq!(resolve(&Route::Clearnet), vec![CLEARNET, "/ip4/1.2.3.4/tcp/9939"]);
    assert_eq!(resolve(&Route::Tor), vec![ONION]);
    assert_eq!(resolve(&Route::SocksProxy("p:1".to_string())), all);
}

#[test]
fn defaults_serve_where_nothing_is_configured() {
    let none = resolve_rendezvous_addresses(vec![], addrs(&[CLEARNET]), &Route::Clearnet);
    assert_eq!(texts(&none), vec![CLEARNET]);
    // What is configured replaces the defaults, even where nothing of it is usable.
    let some = resolve_rendezvous_addresses(addrs(&[ONION]), addrs(&[CLEARNET]), &Route::Clearnet);
    assert!(some.is_empty());
}

#[test]
fn operators_are_told_what_to_do() {
    assert_eq!(
        unusable_hint(&Route::Clearnet),
        "Enable --tor to use onion addresses, or provide clearnet addresses via --rendezvous."
    );
    let provide = "Provide rendezvous addresses via --rendezvous.";
    assert_eq!(unusable_hint(&Route::Tor), provide);
    assert_eq!(unusable_hint(&Route::SocksProxy("p:1".to_string())), provide);
}

fn status_of(makers: Vec<MakerQuote>, our_version: Option<&str>) -> StatusResponse {
    let snapshot = Snapshot { generated_at: NOW, ready: true, makers };
    let network = Network {
        our_version: our_version.map(|v| v.to_string()),
        connected: vec![peer(1), peer(2), peer(9)],
        rendezvous: vec![peer(9), peer(8), peer(1)],
        polls: vec![
            (peer(1), PollOutcome::Received),
            (peer(2), PollOutcome::Failed),
            (peer(3), PollOutcome::Received),
            (peer(4), PollOutcome::NotSupported),
            (peer(5), PollOutcome::Pending),
        ],
    };
    StatusResponse::at(&snapshot, &network, NOW)
}

#[test]
fn status_tells_how_the_collector_stands() {
    let makers = vec![
        row(Some("2.0.0"), 1),
        row(None, 0),
        row(Some("10.0.0"), 1),
        row(Some("2.0.0"), 0),
    ];
    let status = status_of(makers, Some("2.0.0"));
    assert_eq!(status.generated_at, NOW);
    assert!(status.ready);
    assert_eq!(status.our_version, Some("2.0.0".to_string()));
    assert_eq!(status.connected_peers, 3);
    assert_eq!(status.rendezvous_total, 3);
    assert_eq!(status.rendezvous_connected, 2);
    assert_eq!(status.discovered_peers, 5);
    assert_eq!(status.quotes_received, 2);
    assert_eq!(status.quotes_not_supported, 1);
    assert_eq!(status.quotes_failed, 1);
    assert_eq!(status.maker_count, 4);
    assert_eq!(status.makers_with_liquidity, 2);
    assert_eq!(
        status.maker_versions,
        vec![count("2.0.0", 2), count("unknown", 1), count("10.0.0", 1)]
    );
    // By precedence, not by the alphabet.
    assert_eq!(status.max_maker_version, Some("10.0.0".to_string()));
    assert_eq!(status.makers_newer_than_ours, 1);
    let counted: usize = status.maker_versions.iter().map(|c| c.makers).sum();
    assert_eq!(counted, status.maker_count);
}

#[test]
fn a_node_with_several_addresses_counts_once() {
    let nodes = [peer(9), peer(8), peer(9), peer(7), peer(8), peer(9)];
    assert_eq!(count_nodes(&nodes), 3);
    assert_eq!(count_connected(&nodes, &[peer(9), peer(1), peer(7)]), 2);
    assert_eq!(count_connected(&nodes, &[]), 0);
    assert_eq!(count_nodes(&[]), 0);
    let network = Network {
        our_version: None,
        connected: vec![peer(9)],
        rendezvous: nodes.to_vec(),
        polls: vec![],
    };
    let status = StatusResponse::at(&Snapshot::empty_at(NOW), &network, NOW);
    assert_eq!(status.rendezvous_total, 3);
    assert_eq!(status.rendezvous_connected, 1);
}

#[test]
fn a_release_is_newer_than_its_candidates() {
    let makers = vec![row(Some("3.0.0-rc.2"), 1), row(Some("3.0.0"), 1), row(Some("3.0.0-rc.10"), 1)];
    let status = status_of(makers, Some("3.0.0-rc.2"));
    assert_eq!(status.max_maker_version, Some("3.0.0".to_string()));
    assert_eq!(status.makers_newer_than_ours, 2);
}

#[test]
fn status_without_versions() {
    let status = status_of(vec![row(None, 1)], Some("1.0.0"));
    assert_eq!(status.max_maker_version, None);
    assert_eq!(status.makers_newer_than_ours, 0);
    let unknown = status_of(vec![row(Some("9.0.0"), 1)], None);
    assert_eq!(unknown.our_version, None);
    assert_eq!(unknown.makers_newer_than_ours, 0);
    let empty = status_of(vec![], None);
    assert!(empty.maker_versions.is_empty());
}

#[test]
fn the_current_status_is_of_now() {
    let network =
        Network { our_version: None, connected: vec![], rendezvous: vec![], polls: vec![] };
    let status = StatusResponse::current(&Snapshot::empty_at(NOW), &network);
    assert!(!status.ready);
    assert!(status.generated_at.secs > 1_577_836_800);
}
