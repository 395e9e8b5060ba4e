//! Rows, snapshots and readiness.
use crate::address::{Multiaddr, PeerId};
use crate::api::{CachedQuote, MakerQuote, Probe, Snapshot};
use crate::quote::BidQuote;
use crate::time::Timestamp;
use crate::version::Version;
use vstd::prelude::*;

verus! {

/// A maker's row has its peer id in base 58, the text of its address, the text of its
/// version just where that is known, and its quote as it is; it has liquidity just
/// where both the price and the maximum are positive.
pub proof fn law_a_row_tells_its_maker(
    peer: PeerId,
    addr: Multiaddr,
    quote: BidQuote,
    version: Option<Version>,
    row: MakerQuote,
)
    requires
        call_ensures(MakerQuote::from_parts, (peer, addr, quote, version), row),
    ensures
        row.peer_id@ == crate::base58::base58(peer@),
        crate::address::multiaddr_text(addr@) matches Some(text) ==> row.multiaddr@ == text,
        row.version is Some <==> version is Some,
        version matches Some(known) ==> row.version->0@ == known@.text(),
        row.price_sat == quote.price_sat,
        row.min_quantity_sat == quote.min_quantity_sat,
        row.max_quantity_sat == quote.max_quantity_sat,
        row.refund_policy == quote.refund_policy,
        row.reserve_proof == quote.reserve_proof,
        row.has_liquidity <==> quote.price_sat > 0 && quote.max_quantity_sat > 0,
{
}

/// Makers whose rows have the same peer id are the same peer.
pub proof fn law_rows_tell_peers_apart(
    a: PeerId,
    b: PeerId,
    addr: Multiaddr,
    quote: BidQuote,
    version: Option<Version>,
    row_a: MakerQuote,
    row_b: MakerQuote,
)
    requires
        call_ensures(MakerQuote::from_parts, (a, addr, quote, version), row_a),
        call_ensures(MakerQuote::from_parts, (b, addr, quote, version), row_b),
    ensures
        row_a.peer_id@ == row_b.peer_id@ <==> a@ == b@,
{
    if row_a.peer_id@ == row_b.peer_id@ {
        crate::base58::law_base58_tells_bytes(a@, b@);
    }
}

/// A snapshot of the cache has one row for each cached quote, in the same order, and
/// each row tells its maker and its quote. It is ready if there is a quote, and of the
/// time that it is taken at.
pub proof fn law_a_snapshot_has_a_row_for_each_quote(
    quotes: Vec<CachedQuote>,
    now: Timestamp,
    snapshot: Snapshot,
)
    requires
        call_ensures(Snapshot::from_cached_quotes_at, (quotes, now), snapshot),
    ensures
        snapshot.generated_at == now,
        snapshot.ready <==> quotes@.len() > 0,
        snapshot.makers@.len() == quotes@.len(),
        forall|i: int|
            0 <= i < snapshot.makers@.len() ==> {
                let (peer, addr, quote, version) = quotes@[i];
                &&& (#[trigger] snapshot.makers@[i]).peer_id@ == crate::base58::base58(peer@)
                &&& crate::address::multiaddr_text(addr@) matches Some(text) ==> snapshot.makers@[i].multiaddr@
                    == text
                &&& snapshot.makers@[i].version is Some <==> version is Some
                &&& version matches Some(known) ==> snapshot.makers@[i].version->0@ == known@.text()
                &&& snapshot.makers@[i].price_sat == quote.price_sat
                &&& snapshot.makers@[i].min_quantity_sat == quote.min_quantity_sat
                &&& snapshot.makers@[i].max_quantity_sat == quote.max_quantity_sat
                &&& snapshot.makers@[i].refund_policy == quote.refund_policy
                &&& snapshot.makers@[i].reserve_proof == quote.reserve_proof
                &&& snapshot.makers@[i].has_liquidity <==> quote.price_sat > 0 && quote.max_quantity_sat > 0
            },
{
}

/// The same of a snapshot that is taken at the machine's time.
pub proof fn law_a_snapshot_of_now_has_a_row_for_each_quote(
    quotes: Vec<CachedQuote>,
    snapshot: Snapshot,
)
    requires
        call_ensures(Snapshot::from_cached_quotes, (quotes,), snapshot),
    ensures
        snapshot.generated_at.nanos < 1_000_000_000,
        snapshot.ready <==> quotes@.len() > 0,
        snapshot.makers@.len() == quotes@.len(),
        forall|i: int|
            0 <= i < snapshot.makers@.len() ==> {
                let (peer, addr, quote, version) = quotes@[i];
                &&& (#[trigger] snapshot.makers@[i]).peer_id@ == crate::base58::base58(peer@)
                &&& crate::address::multiaddr_text(addr@) matches Some(text) ==> snapshot.makers@[i].multiaddr@
                    == text
                &&& snapshot.makers@[i].version is Some <==> version is Some
                &&& version matches Some(known) ==> snapshot.makers@[i].version->0@ == known@.text()
                &&& snapshot.makers@[i].price_sat == quote.price_sat
                &&& snapshot.makers@[i].min_quantity_sat == quote.min_quantity_sat
                &&& snapshot.makers@[i].max_quantity_sat == quote.max_quantity_sat
                &&& snapshot.makers@[i].refund_policy == quote.refund_policy
                &&& snapshot.makers@[i].reserve_proof == quote.reserve_proof
                &&& snapshot.makers@[i].has_liquidity <==> quote.price_sat > 0 && quote.max_quantity_sat > 0
            },
{
}

/// An update replaces all rows by those of the cached quotes, and never takes readiness
/// back.
pub proof fn law_an_update_has_a_row_for_each_quote(
    previous: Snapshot,
    quotes: Vec<CachedQuote>,
    now: Timestamp,
    next: Snapshot,
)
    requires
        call_ensures(Snapshot::updated_at, (&previous, quotes, now), next),
    ensures
        next.generated_at == now,
        next.ready <==> quotes@.len() > 0 || previous.ready,
        next.makers@.len() == quotes@.len(),
        forall|i: int|
            0 <= i < next.makers@.len() ==> {
                let (peer, addr, quote, version) = quotes@[i];
                &&& (#[trigger] next.makers@[i]).peer_id@ == crate::base58::base58(peer@)
                &&& crate::address::multiaddr_text(addr@) matches Some(text) ==> next.makers@[i].multiaddr@
                    == text
                &&& next.makers@[i].version is Some <==> version is Some
                &&& version matches Some(known) ==> next.makers@[i].version->0@ == known@.text()
                &&& next.makers@[i].price_sat == quote.price_sat
                &&& next.makers@[i].min_quantity_sat == quote.min_quantity_sat
                &&& next.makers@[i].max_quantity_sat == quote.max_quantity_sat
                &&& next.makers@[i].refund_policy == quote.refund_policy
                &&& next.makers@[i].reserve_proof == quote.reserve_proof
                &&& next.makers@[i].has_liquidity <==> quote.price_sat > 0 && quote.max_quantity_sat > 0
            },
{
}

/// The same of an update at the machine's time.
pub proof fn law_an_update_of_now_has_a_row_for_each_quote(
    previous: Snapshot,
    quotes: Vec<CachedQuote>,
    next: Snapshot,
)
    requires
        call_ensures(Snapshot::updated, (&previous, quotes), next),
    ensures
        next.generated_at.nanos < 1_000_000_000,
        next.ready <==> quotes@.len() > 0 || previous.ready,
        next.makers@.len() == quotes@.len(),
        forall|i: int|
            0 <= i < next.makers@.len() ==> {
                let (peer, addr, quote, version) = quotes@[i];
                &&& (#[trigger] next.makers@[i]).peer_id@ == crate::base58::base58(peer@)
                &&& crate::address::multiaddr_text(addr@) matches Some(text) ==> next.makers@[i].multiaddr@
                    == text
                &&& next.makers@[i].version is Some <==> version is Some
                &&& version matches Some(known) ==> next.makers@[i].version->0@ == known@.text()
                &&& next.makers@[i].price_sat == quote.price_sat
                &&& next.makers@[i].min_quantity_sat == quote.min_quantity_sat
                &&& next.makers@[i].max_quantity_sat == quote.max_quantity_sat
                &&& next.makers@[i].refund_policy == quote.refund_policy
                &&& next.makers@[i].reserve_proof == quote.reserve_proof
                &&& next.makers@[i].has_liquidity <==> quote.price_sat > 0 && quote.max_quantity_sat > 0
            },
{
}

/// A snapshot that follows another keeps its own time and rows, and is ready if either
/// is.
pub proof fn law_following_keeps_time_and_rows(
    snapshot: Snapshot,
    previous: Snapshot,
    followed: Snapshot,
)
    requires
        call_ensures(Snapshot::following, (snapshot, &previous), followed),
    ensures
        followed.generated_at == snapshot.generated_at,
        followed.makers@ == snapshot.makers@,
        followed.ready <==> snapshot.ready || previous.ready,
{
}

/// The collector begins with nothing, and is not ready.
pub proof fn law_the_collector_begins_with_nothing(now: Timestamp, at: Snapshot, first: Snapshot)
    requires
        call_ensures(Snapshot::empty_at, (now,), at),
        call_ensures(Snapshot::empty, (), first),
    ensures
        at.generated_at == now,
        at.makers@.len() == 0,
        !at.ready,
        first.generated_at.nanos < 1_000_000_000,
        first.makers@.len() == 0,
        !first.ready,
{
}

/// Over any history of updates the collector is ready from the first update that holds
/// a quote on, and not before; `/readyz` answers 200 and `ready` from then on, and 503
/// and `not ready` until then.
pub proof fn law_readyz_follows_the_history(
    published: Seq<Snapshot>,
    updates: Seq<Vec<CachedQuote>>,
    n: int,
    probe: Probe,
)
    requires
        published.len() == updates.len() + 1,
        call_ensures(Snapshot::empty, (), published[0]),
        forall|i: int|
            0 <= i < updates.len() ==> call_ensures(
                Snapshot::updated,
                (&published[i], #[trigger] updates[i]),
                published[i + 1],
            ),
        0 <= n < published.len(),
        call_ensures(crate::api::readyz, (&published[n],), probe),
    ensures
        (exists|i: int| 0 <= i < n && (#[trigger] updates[i])@.len() > 0) ==> probe.status == 200
            && probe.body@ == "ready"@,
        (forall|i: int| 0 <= i < n ==> (#[trigger] updates[i])@.len() == 0) ==> probe.status == 503
            && probe.body@ == "not ready"@,
{
    lemma_ready(published, updates, n);
}

/// When a published snapshot is ready.
proof fn lemma_ready(published: Seq<Snapshot>, updates: Seq<Vec<CachedQuote>>, n: int)
    requires
        published.len() == updates.len() + 1,
        call_ensures(Snapshot::empty, (), published[0]),
        forall|i: int|
            0 <= i < updates.len() ==> call_ensures(
                Snapshot::updated,
                (&published[i], #[trigger] updates[i]),
                published[i + 1],
            ),
        0 <= n < published.len(),
    ensures
        published[n].ready <==> exists|i: int| 0 <= i < n && (#[trigger] updates[i])@.len() > 0,
    decreases n,
{
    if n > 0 {
        lemma_ready(published, updates, n - 1);
        assert(call_ensures(
            Snapshot::updated,
            (&published[n - 1], updates[n - 1]),
            published[n - 1 + 1],
        ));
        assert(published[n].ready <==> updates[n - 1]@.len() > 0 || published[n - 1].ready);
    }
}

/// The two probes: the process is alive whatever it holds, and ready just where its
/// snapshot is.
pub proof fn law_probes(snapshot: Snapshot, alive: Probe, ready: Probe)
    requires
        call_ensures(crate::api::healthz, (), alive),
        call_ensures(crate::api::readyz, (&snapshot,), ready),
    ensures
        alive.status == 200,
        alive.body@ == "ok"@,
        ready.status == if snapshot.ready {
            200u16
        } else {
            503u16
        },
        ready.body@ == if snapshot.ready {
            "ready"@
        } else {
            "not ready"@
        },
{
}

} // verus!
