use swap_market_data::address::{Multiaddr, PeerId};
use swap_market_data::api::{
    best_price, count_liquid, healthz, readyz, sum_max_quantity, CachedQuote, MakerQuote,
    OrderbookResponse, Probe, QuotesResponse, Snapshot, DISCLAIMER,
};
use swap_market_data::quote::{BidQuote, Ratio, RefundPolicyWire, ReserveProofWithAddress};
use swap_market_data::time::Timestamp;
use swap_market_data::version::Version;

const NOW: Timestamp = Timestamp { secs: 1_758_803_696, nanos: 789_000_000 };

fn maker(peer: &str, price_sat: u64, max_quantity_sat: u64) -> MakerQuote {
    MakerQuote {
        peer_id: peer.to_string(),
        multiaddr: "/dns4/example.org/tcp/443/wss".to_string(),
        version: Some("1.0.0".to_string()),
        price_sat,
        min_quantity_sat: 1_000,
        max_quantity_sat,
        refund_policy: RefundPolicyWire::FullRefund,
        reserve_proof: None,
        has_liquidity: price_sat > 0 && max_quantity_sat > 0,
    }
}

fn snapshot(makers: Vec<MakerQuote>) -> Snapshot {
    Snapshot { generated_at: NOW, ready: true, makers }
}

fn peers(makers: &[MakerQuote]) -> Vec<&str> {
    makers.iter().map(|m| m.peer_id.as_str()).collect()
}

/// The identity multihash of `digest`.
fn peer_id(digest: &[u8]) -> PeerId {
    let mut bytes = vec![0u8, digest.len() as u8];
    bytes.extend_from_slice(digest);
    PeerId::from_bytes(bytes).unwrap()
}

fn cached(price_sat: u64, max_quantity_sat: u64, version: Option<Version>) -> CachedQuote {
    (
        peer_id(&[1, 2, 3, 4]),
        Multiaddr::parse("/dns4/maker.example.org/tcp/443/wss").unwrap(),
        BidQuote {
            price_sat,
            min_quantity_sat: 5,
            max_quantity_sat,
            refund_policy: RefundPolicyWire::PartialRefund {
                anti_spam_deposit_ratio: Ratio { mantissa: 5, scale: 2 },
            },
            reserve_proof: Some(ReserveProofWithAddress {
                address: "4A".to_string(),
                proof: "ReserveProofV2".to_string(),
                message: "maker".to_string(),
            }),
        },
        version,
    )
}

#[test]
fn orderbook_sorts_liquidity_first_then_by_price_and_summarizes() {
    let snapshot = snapshot(vec![
        maker("high", 3_900, 10),
        maker("zero", 0, 0),
        maker("low", 3_800, 20),
    ]);

    let orderbook = OrderbookResponse::from(snapshot);

    assert_eq!(orderbook.market, "XMR/BTC");
    assert_eq!(orderbook.maker_count, 3);
    assert_eq!(orderbook.makers_with_liquidity, 2);
    assert_eq!(orderbook.best_price_sat, Some(3_800));
    assert_eq!(orderbook.total_max_quantity_sat, 30);

    // Liquidity first, then ascending price; zero-liquidity maker is last.
    assert_eq!(orderbook.makers[0].peer_id, "low");
    assert_eq!(orderbook.makers[1].peer_id, "high");
    assert_eq!(orderbook.makers[2].peer_id, "zero");
}

#[test]
fn best_price_is_none_without_liquidity() {
    let orderbook = OrderbookResponse::from(snapshot(vec![maker("zero", 0, 0)]));

    assert_eq!(orderbook.best_price_sat, None);
    assert_eq!(orderbook.makers_with_liquidity, 0);
}

#[test]
fn orderbook_carries_time_and_disclaimer() {
    let orderbook = OrderbookResponse::from(snapshot(vec![]));
    assert_eq!(orderbook.generated_at, NOW);
    assert_eq!(orderbook.maker_count, 0);
    assert_eq!(orderbook.total_max_quantity_sat, 0);
    assert_eq!(
        orderbook.disclaimer,
        "Values are indicative maker quotes refreshed on a poll interval, \
         not executed trades or resting limit orders. `price_sat` is the amount of BTC (in \
         satoshis) a maker asks for 1 XMR. `max_quantity_sat` is bounded by the maker's \
         available Monero inventory."
    );
}

#[test]
fn makers_that_are_alike_keep_their_order() {
    let orderbook = OrderbookResponse::from(snapshot(vec![
        maker("none-9", 9, 0),
        maker("a", 7, 1),
        maker("none-3", 3, 0),
        maker("b", 7, 2),
        maker("c", 6, 3),
        maker("d", 7, 4),
        maker("none-3-too", 3, 0),
    ]));
    assert_eq!(
        peers(&orderbook.makers),
        vec!["c", "a", "b", "d", "none-3", "none-3-too", "none-9"]
    );
    // The makers with liquidity come first, and the first has the best price.
    assert_eq!(orderbook.makers_with_liquidity, 4);
    assert_eq!(orderbook.best_price_sat, Some(orderbook.makers[0].price_sat));
}

#[test]
fn a_cheap_maker_without_liquidity_is_no_best_price() {
    let rows = vec![maker("free", 1, 0), maker("real", 50, 1)];
    assert_eq!(best_price(&rows), Some(50));
    assert_eq!(count_liquid(&rows), 1);
}

#[test]
fn the_depth_is_a_sum_that_may_not_fit() {
    assert_eq!(sum_max_quantity(&[]), Some(0));
    assert_eq!(sum_max_quantity(&[maker("a", 1, u64::MAX)]), Some(u64::MAX));
    assert_eq!(sum_max_quantity(&[maker("a", 1, u64::MAX), maker("b", 1, 1)]), None);
}

#[test]
fn summary_does_not_depend_on_order() {
    let rows = vec![maker("x", 5, 2), maker("y", 0, 3), maker("z", 4, 7)];
    let orderbook = OrderbookResponse::from(snapshot(rows.clone()));
    assert_eq!(sum_max_quantity(&orderbook.makers), sum_max_quantity(&rows));
    assert_eq!(count_liquid(&orderbook.makers), count_liquid(&rows));
    assert_eq!(best_price(&orderbook.makers), best_price(&rows));

    let turned = OrderbookResponse::from(snapshot(rows.into_iter().rev().collect()));
    assert_eq!(turned.maker_count, 3);
    assert_eq!(turned.makers_with_liquidity, 2);
    assert_eq!(turned.best_price_sat, Some(4));
    assert_eq!(turned.total_max_quantity_sat, 12);
    assert_eq!(turned.best_price_sat, orderbook.best_price_sat);
    assert_eq!(turned.total_max_quantity_sat, orderbook.total_max_quantity_sat);
}

#[test]
fn quotes_are_the_rows_of_the_snapshot_in_order() {
    let rows = vec![maker("z", 5, 2), maker("y", 0, 3), maker("x", 4, 7)];
    let quotes = QuotesResponse::from(snapshot(rows.clone()));
    assert_eq!(peers(&quotes.makers), vec!["z", "y", "x"]);
    assert_eq!(quotes.maker_count, 3);
    assert_eq!(quotes.generated_at, NOW);
    assert_eq!(quotes.disclaimer, DISCLAIMER);

    // The orderbook lists the same makers.
    let orderbook = OrderbookResponse::from(snapshot(rows));
    let mut listed = peers(&orderbook.makers);
    listed.sort();
    assert_eq!(listed, vec!["x", "y", "z"]);
}

#[test]
fn a_row_lists_its_maker() {
    let version = Version::new(2, 1, 0, String::new(), String::new()).unwrap();
    let (id, addr, quote, version) = cached(3_820_000, 30_000_000, Some(version));
    let row = MakerQuote::from_parts(id, addr, quote, version);
    // Base 58 of the bytes 0, 4, 1, 2, 3, 4.
    assert_eq!(row.peer_id, "1TCcz3d");
    assert_eq!(row.multiaddr, "/dns4/maker.example.org/tcp/443/wss");
    assert_eq!(row.version, Some("2.1.0".to_string()));
    assert_eq!(row.price_sat, 3_820_000);
    assert_eq!(row.min_quantity_sat, 5);
    assert_eq!(row.max_quantity_sat, 30_000_000);
    assert_eq!(
        row.refund_policy,
        RefundPolicyWire::PartialRefund { anti_spam_deposit_ratio: Ratio { mantissa: 5, scale: 2 } }
    );
    assert_eq!(row.reserve_proof.unwrap().proof, "ReserveProofV2");
    assert!(row.has_liquidity);
}

#[test]
fn liquidity_takes_a_price_and_an_amount() {
    for (price, max, expected) in [(0, 0, false), (0, 1, false), (1, 0, false), (1, 1, true)] {
        let (id, addr, quote, version) = cached(price, max, None);
        let row = MakerQuote::from_parts(id, addr, quote, version);
        assert_eq!(row.has_liquidity, expected);
        assert_eq!(row.version, None);
    }
}

#[test]
fn the_first_snapshot_is_empty_and_not_ready() {
    let first = Snapshot::empty();
    assert!(!first.ready);
    assert!(first.makers.is_empty());
    // The clock runs: this is after 2020.
    assert!(first.generated_at.secs > 1_577_836_800);
    assert!(first.generated_at.nanos < 1_000_000_000);
    assert_eq!(Snapshot::empty_at(NOW).generated_at, NOW);
}

#[test]
fn a_snapshot_has_a_row_for_each_cached_quote() {
    let made = Snapshot::from_cached_quotes_at(vec![cached(7, 1, None), cached(6, 0, None)], NOW);
    assert_eq!(made.generated_at, NOW);
    assert!(made.ready);
    assert_eq!(made.makers.len(), 2);
    assert_eq!(made.makers[0].price_sat, 7);
    assert_eq!(made.makers[1].price_sat, 6);
    assert!(Snapshot::from_cached_quotes(vec![cached(7, 1, None)]).ready);
}

#[test]
fn the_collector_is_ready_from_the_first_quote_on() {
    let start = Snapshot::empty_at(NOW);
    let nothing = Snapshot::from_cached_quotes_at(vec![], NOW).following(&start);
    assert!(!nothing.ready);
    let first = Snapshot::from_cached_quotes_at(vec![cached(7, 1, None)], NOW).following(&nothing);
    assert!(first.ready);
    assert_eq!(first.makers.len(), 1);
    let expired = Snapshot::from_cached_quotes_at(vec![], NOW).following(&first);
    assert!(expired.ready);
    assert!(expired.makers.is_empty());

    assert!(!start.updated(vec![]).ready);
    let updated = nothing.updated(vec![cached(7, 1, None)]);
    assert!(updated.ready);
    assert_eq!(updated.makers[0].price_sat, 7);
    assert!(updated.updated(vec![]).ready);
    assert!(updated.generated_at.secs > 1_577_836_800);

    let later = Timestamp { secs: NOW.secs + 45, nanos: 1 };
    let timed = start.updated_at(vec![cached(7, 1, None), cached(8, 1, None)], later);
    assert_eq!(timed.generated_at, later);
    assert!(timed.ready);
    assert_eq!(timed.makers[1].price_sat, 8);
}

#[test]
fn probes_answer() {
    assert_eq!(healthz(), Probe { status: 200, body: "ok" });
    let mut state = Snapshot::empty();
    assert_eq!(readyz(&state), Probe { status: 503, body: "not ready" });
    state.ready = true;
    assert_eq!(readyz(&state), Probe { status: 200, body: "ready" });
}
