//! The responses of the REST API.
use crate::address::{Multiaddr, PeerId};
use crate::quote::{BidQuote, RefundPolicyWire, ReserveProofWithAddress};
use crate::ranking::rank_makers;
use crate::time::{utc_now, Timestamp};
use crate::version::Version;
use vstd::prelude::*;

verus! {

/// One maker's current advertised quote.
#[derive(Debug, Clone)]
pub struct MakerQuote {
    /// libp2p peer id of the maker.
    pub peer_id: String,
    /// Multiaddr the maker was last reached at.
    pub multiaddr: String,
    /// Maker software version reported via libp2p identify, if known.
    pub version: Option<String>,
    /// Price for 1 XMR, in BTC satoshis (the maker's ask).
    pub price_sat: u64,
    /// Minimum BTC amount (satoshis) the maker accepts in a swap.
    pub min_quantity_sat: u64,
    /// Maximum BTC amount (satoshis) the maker accepts, bounded by its inventory.
    pub max_quantity_sat: u64,
    /// Terms applied if the swap is cancelled.
    pub refund_policy: RefundPolicyWire,
    /// Optional Monero reserve proof backing the quote.
    pub reserve_proof: Option<ReserveProofWithAddress>,
    /// True when the maker currently advertises usable liquidity (price and max > 0).
    pub has_liquidity: bool,
}

impl MakerQuote {
    /// The row says that it has liquidity just where it asks for a price and
    /// accepts an amount.
    pub open spec fn well_formed(self) -> bool {
        self.has_liquidity == (self.price_sat > 0 && self.max_quantity_sat > 0)
    }

    /// The row lists the given maker with its quote.
    pub open spec fn lists(
        self,
        peer_id: PeerId,
        multiaddr: Multiaddr,
        quote: BidQuote,
        version: Option<Version>,
    ) -> bool {
        &&& self.peer_id@ == peer_id.text()
        &&& self.multiaddr@ == multiaddr.text()
        &&& crate::address::text_view(self.version) == match version {
            Some(v) => Some(v@.text()),
            None => None,
        }
        &&& self.price_sat == quote.price_sat
        &&& self.min_quantity_sat == quote.min_quantity_sat
        &&& self.max_quantity_sat == quote.max_quantity_sat
        &&& self.refund_policy == quote.refund_policy
        &&& self.reserve_proof == quote.reserve_proof
        &&& self.well_formed()
    }

    /// The row of a maker that was last reached at `multiaddr`.
    pub fn from_parts(
        peer_id: PeerId,
        multiaddr: Multiaddr,
        quote: BidQuote,
        version: Option<Version>,
    ) -> (row: Self)
        ensures
            row.lists(peer_id, multiaddr, quote, version),
    {
        let version_text = match &version {
            Some(v) => Some(v.to_text()),
            None => None,
        };
        MakerQuote {
            peer_id: peer_id.to_text(),
            multiaddr: multiaddr.to_text(),
            version: version_text,
            price_sat: quote.price_sat,
            min_quantity_sat: quote.min_quantity_sat,
            max_quantity_sat: quote.max_quantity_sat,
            refund_policy: quote.refund_policy,
            reserve_proof: quote.reserve_proof,
            has_liquidity: quote.price_sat > 0 && quote.max_quantity_sat > 0,
        }
    }
}

/// The shared, always-current market view produced by the collector.
#[derive(Debug, Clone)]
pub struct Snapshot {
    /// When this snapshot was produced.
    pub generated_at: Timestamp,
    /// True once the collector has received at least one quote from the network.
    pub ready: bool,
    /// One entry per maker currently in the cache.
    pub makers: Vec<MakerQuote>,
}

/// A maker in the cache: who it is, where it was last reached, what it asks for,
/// and its version where that is known.
pub type CachedQuote = (PeerId, Multiaddr, BidQuote, Option<Version>);

/// The rows list the cached quotes, one each and in order.
pub open spec fn rows_list(rows: Seq<MakerQuote>, quotes: Seq<CachedQuote>) -> bool {
    &&& rows.len() == quotes.len()
    &&& forall|i: int|
        0 <= i < rows.len() ==> (#[trigger] rows[i]).lists(
            quotes[i].0,
            quotes[i].1,
            quotes[i].2,
            quotes[i].3,
        )
}

/// `next` lists the quotes that came in one update of the cache, and follows
/// `previous`.
pub open spec fn is_update(previous: Snapshot, quotes: Seq<CachedQuote>, next: Snapshot) -> bool {
    &&& rows_list(next.makers@, quotes)
    &&& next.ready == (quotes.len() > 0 || previous.ready)
}

impl Snapshot {
    /// The initial, empty snapshot, as of `now`.
    pub fn empty_at(now: Timestamp) -> (snapshot: Self)
        ensures
            snapshot.generated_at == now,
            !snapshot.ready,
            snapshot.makers@.len() == 0,
    {
        Snapshot { generated_at: now, ready: false, makers: Vec::new() }
    }

    /// The initial, empty snapshot served before the first quote arrives. When it
    /// was produced is the machine's time.
    pub fn empty() -> (snapshot: Self)
        ensures
            snapshot.generated_at.well_formed(),
            !snapshot.ready,
            snapshot.makers@.len() == 0,
    {
        Snapshot::empty_at(utc_now())
    }

    /// The snapshot of the cached quotes, as of `now`.
    pub fn from_cached_quotes_at(quotes: Vec<CachedQuote>, now: Timestamp) -> (snapshot: Self)
        ensures
            snapshot.generated_at == now,
            snapshot.ready <==> quotes@.len() > 0,
            rows_list(snapshot.makers@, quotes@),
    {
        let ghost all = quotes@;
        let ready = quotes.len() > 0;
        let mut makers: Vec<MakerQuote> = Vec::new();
        for quote in it: quotes
            invariant
                it.seq() == all,
                makers@.len() == it.index(),
                forall|i: int|
                    0 <= i < makers@.len() ==> (#[trigger] makers@[i]).lists(
                        all[i].0,
                        all[i].1,
                        all[i].2,
                        all[i].3,
                    ),
        {
            makers.push(MakerQuote::from_parts(quote.0, quote.1, quote.2, quote.3));
        }
        Snapshot { generated_at: now, ready, makers }
    }

    /// Builds a snapshot from the quotes in the cache. When it was produced is the
    /// machine's time.
    pub fn from_cached_quotes(quotes: Vec<CachedQuote>) -> (snapshot: Self)
        ensures
            snapshot.generated_at.well_formed(),
            snapshot.ready <==> quotes@.len() > 0,
            rows_list(snapshot.makers@, quotes@),
    {
        Snapshot::from_cached_quotes_at(quotes, utc_now())
    }

    /// This snapshot as it follows `previous`: a collector that has received a
    /// quote stays ready when the cache runs empty.
    pub fn following(self, previous: &Snapshot) -> (snapshot: Self)
        ensures
            snapshot.generated_at == self.generated_at,
            snapshot.ready == (self.ready || previous.ready),
            snapshot.makers == self.makers,
    {
        Snapshot {
            generated_at: self.generated_at,
            ready: self.ready || previous.ready,
            makers: self.makers,
        }
    }

    /// The snapshot that replaces this one at `now`, when the cache holds `quotes`.
    pub fn updated_at(&self, quotes: Vec<CachedQuote>, now: Timestamp) -> (next: Self)
        ensures
            next.generated_at == now,
            is_update(*self, quotes@, next),
    {
        Snapshot::from_cached_quotes_at(quotes, now).following(self)
    }

    /// The snapshot that replaces this one when the cache holds `quotes`. When it
    /// was produced is the machine's time.
    pub fn updated(&self, quotes: Vec<CachedQuote>) -> (next: Self)
        ensures
            next.generated_at.well_formed(),
            is_update(*self, quotes@, next),
    {
        self.updated_at(quotes, utc_now())
    }
}

/// The one market of the network.
pub const MARKET: &'static str = "XMR/BTC";

/// What every list of quotes is served with.
pub const DISCLAIMER: &'static str =
    "Values are indicative maker quotes refreshed on a poll interval, not executed trades or resting limit orders. `price_sat` is the amount of BTC (in satoshis) a maker asks for 1 XMR. `max_quantity_sat` is bounded by the maker's available Monero inventory.";

/// The rows with liquidity, in order.
pub open spec fn liquid(rows: Seq<MakerQuote>) -> Seq<MakerQuote> {
    rows.filter(|row: MakerQuote| row.has_liquidity)
}

/// The sum of the amounts that the rows accept.
pub open spec fn total_max_quantity(rows: Seq<MakerQuote>) -> nat
    decreases rows.len(),
{
    if rows.len() == 0 {
        0
    } else {
        total_max_quantity(rows.drop_last()) + rows.last().max_quantity_sat as nat
    }
}

/// `best` is the lowest price among the rows with liquidity; `None` where there
/// are none.
pub open spec fn is_best_price(rows: Seq<MakerQuote>, best: Option<u64>) -> bool {
    match best {
        Some(price) => {
            &&& exists|i: int|
                0 <= i < rows.len() && (#[trigger] rows[i]).has_liquidity && rows[i].price_sat
                    == price
            &&& forall|i: int|
                0 <= i < rows.len() && (#[trigger] rows[i]).has_liquidity ==> price
                    <= rows[i].price_sat
        },
        None => forall|i: int| 0 <= i < rows.len() ==> !(#[trigger] rows[i]).has_liquidity,
    }
}

/// The number of rows with liquidity.
pub fn count_liquid(rows: &[MakerQuote]) -> (count: usize)
    ensures
        count == liquid(rows@).len(),
{
    let mut count: usize = 0;
    let mut i: usize = 0;
    while i < rows.len()
        invariant
            i <= rows@.len(),
            count <= i,
            count == liquid(rows@.take(i as int)).len(),
        decreases rows@.len() - i,
    {
        proof {
            reveal(Seq::filter);
            assert(rows@.take(i + 1).drop_last() =~= rows@.take(i as int));
        }
        if rows[i].has_liquidity {
            count += 1;
        }
        i += 1;
    }
    assert(rows@.take(i as int) =~= rows@);
    count
}

/// The lowest price among the rows with liquidity.
pub fn best_price(rows: &[MakerQuote]) -> (best: Option<u64>)
    ensures
        is_best_price(rows@, best),
{
    let mut best: Option<u64> = None;
    let mut i: usize = 0;
    while i < rows.len()
        invariant
            i <= rows@.len(),
            is_best_price(rows@.take(i as int), best),
        decreases rows@.len() - i,
    {
        let ghost seen = rows@.take(i as int);
        let ghost more = rows@.take(i + 1);
        proof {
            assert(more.drop_last() =~= seen);
            assert(forall|j: int| 0 <= j < i ==> more[j] == #[trigger] seen[j]);
            assert(more[i as int] == rows@[i as int]);
        }
        if rows[i].has_liquidity {
            best = match best {
                Some(price) => if price <= rows[i].price_sat {
                    Some(price)
                } else {
                    Some(rows[i].price_sat)
                },
                None => Some(rows[i].price_sat),
            };
        }
        i += 1;
    }
    assert(rows@.take(i as int) =~= rows@);
    best
}

/// The sum of the first rows is at most the sum of all.
proof fn lemma_total_grows(rows: Seq<MakerQuote>, n: int)
    requires
        0 <= n <= rows.len(),
    ensures
        total_max_quantity(rows.take(n)) <= total_max_quantity(rows),
    decreases rows.len(),
{
    if n == rows.len() {
        assert(rows.take(n) =~= rows);
    } else {
        assert(rows.drop_last().take(n) =~= rows.take(n));
        lemma_total_grows(rows.drop_last(), n);
    }
}

/// The sum of the amounts that the rows accept; `None` where it is too large to
/// be told.
pub fn sum_max_quantity(rows: &[MakerQuote]) -> (total: Option<u64>)
    ensures
        total is Some <==> total_max_quantity(rows@) <= u64::MAX,
        total matches Some(sum) ==> sum == total_max_quantity(rows@),
{
    let mut sum: u64 = 0;
    let mut i: usize = 0;
    while i < rows.len()
        invariant
            i <= rows@.len(),
            sum == total_max_quantity(rows@.take(i as int)),
        decreases rows@.len() - i,
    {
        proof {
            assert(rows@.take(i + 1).drop_last() =~= rows@.take(i as int));
            lemma_total_grows(rows@, i + 1);
        }
        match sum.checked_add(rows[i].max_quantity_sat) {
            Some(next) => {
                sum = next;
            },
            None => {
                return None;
            },
        }
        i += 1;
    }
    assert(rows@.take(i as int) =~= rows@);
    Some(sum)
}

/// The `/orderbook` response: the snapshot plus derived summary fields.
#[derive(Debug, Clone)]
pub struct OrderbookResponse {
    pub market: &'static str,
    pub generated_at: Timestamp,
    pub maker_count: usize,
    pub makers_with_liquidity: usize,
    /// Lowest ask across makers that currently have liquidity, in satoshis.
    pub best_price_sat: Option<u64>,
    /// Sum of all makers' advertised max quantities, in satoshis.
    pub total_max_quantity_sat: u64,
    /// Makers sorted with liquidity first, then ascending price.
    pub makers: Vec<MakerQuote>,
    pub disclaimer: &'static str,
}

impl OrderbookResponse {
    /// The response is the orderbook of the snapshot.
    pub open spec fn summarizes(self, snapshot: Snapshot) -> bool {
        &&& self.market@ == MARKET@
        &&& self.generated_at == snapshot.generated_at
        &&& self.maker_count == snapshot.makers@.len()
        &&& self.makers_with_liquidity == liquid(snapshot.makers@).len()
        &&& is_best_price(snapshot.makers@, self.best_price_sat)
        &&& self.total_max_quantity_sat == total_max_quantity(snapshot.makers@)
        &&& crate::ranking::is_ranking(snapshot.makers@, self.makers@)
        &&& self.disclaimer@ == DISCLAIMER@
    }

    /// The orderbook of a snapshot.
    pub fn from(snapshot: Snapshot) -> (response: Self)
        requires
            total_max_quantity(snapshot.makers@) <= u64::MAX,
        ensures
            response.summarizes(snapshot),
    {
        let maker_count = snapshot.makers.len();
        let makers_with_liquidity = count_liquid(snapshot.makers.as_slice());
        let best_price_sat = best_price(snapshot.makers.as_slice());
        let total_max_quantity_sat = sum_max_quantity(snapshot.makers.as_slice()).unwrap();
        OrderbookResponse {
            market: MARKET,
            generated_at: snapshot.generated_at,
            maker_count,
            makers_with_liquidity,
            best_price_sat,
            total_max_quantity_sat,
            makers: rank_makers(snapshot.makers),
            disclaimer: DISCLAIMER,
        }
    }
}

/// The `/quotes` response: the raw per-maker rows, unsorted, with no summary.
#[derive(Debug, Clone)]
pub struct QuotesResponse {
    pub generated_at: Timestamp,
    pub maker_count: usize,
    pub makers: Vec<MakerQuote>,
    pub disclaimer: &'static str,
}

impl From<Snapshot> for QuotesResponse {
    fn from(snapshot: Snapshot) -> (response: Self) {
        QuotesResponse {
            generated_at: snapshot.generated_at,
            maker_count: snapshot.makers.len(),
            makers: snapshot.makers,
            disclaimer: DISCLAIMER,
        }
    }
}

impl vstd::std_specs::convert::FromSpecImpl<Snapshot> for QuotesResponse {
    open spec fn obeys_from_spec() -> bool {
        true
    }

    open spec fn from_spec(snapshot: Snapshot) -> Self {
        QuotesResponse {
            generated_at: snapshot.generated_at,
            maker_count: snapshot.makers.len(),
            makers: snapshot.makers,
            disclaimer: DISCLAIMER,
        }
    }
}

/// The answer to a probe: an HTTP status code and a body.
#[derive(Debug, Clone, Copy, PartialEq, Eq)]
pub struct Probe {
    pub status: u16,
    pub body: &'static str,
}

/// Liveness: always OK while the process is running.
pub fn healthz() -> (probe: Probe)
    ensures
        probe.status == 200,
        probe.body@ == "ok"@,
{
    Probe { status: 200, body: "ok" }
}

/// Readiness: OK only once the collector has received a quote from the network.
pub fn readyz(snapshot: &Snapshot) -> (probe: Probe)
    ensures
        snapshot.ready ==> probe.status == 200 && probe.body@ == "ready"@,
        !snapshot.ready ==> probe.status == 503 && probe.body@ == "not ready"@,
{
    if snapshot.ready {
        Probe { status: 200, body: "ready" }
    } else {
        Probe { status: 503, body: "not ready" }
    }
}

/// One row more with liquidity or without, anywhere.
proof fn lemma_liquid_remove(rows: Seq<MakerQuote>, at: int)
    requires
        0 <= at < rows.len(),
    ensures
        liquid(rows).len() == liquid(rows.remove(at)).len() + if rows[at].has_liquidity {
            1nat
        } else {
            0nat
        },
    decreases rows.len(),
{
    reveal(Seq::filter);
    if at == rows.len() - 1 {
        assert(rows.remove(at) =~= rows.drop_last());
    } else {
        lemma_liquid_remove(rows.drop_last(), at);
        assert(rows.remove(at).drop_last() =~= rows.drop_last().remove(at));
    }
}

/// One amount more, anywhere.
proof fn lemma_total_remove(rows: Seq<MakerQuote>, at: int)
    requires
        0 <= at < rows.len(),
    ensures
        total_max_quantity(rows) == total_max_quantity(rows.remove(at))
            + rows[at].max_quantity_sat,
    decreases rows.len(),
{
    if at == rows.len() - 1 {
        assert(rows.remove(at) =~= rows.drop_last());
    } else {
        lemma_total_remove(rows.drop_last(), at);
        assert(rows.remove(at).drop_last() =~= rows.drop_last().remove(at));
    }
}

/// Every row of `a` is one of `b`.
spec fn covered(a: Seq<MakerQuote>, b: Seq<MakerQuote>) -> bool {
    forall|i: int| 0 <= i < a.len() ==> b.contains(#[trigger] a[i])
}

/// The same rows in another order cover each other.
proof fn lemma_same_rows_cover(a: Seq<MakerQuote>, b: Seq<MakerQuote>)
    requires
        a.to_multiset() == b.to_multiset(),
    ensures
        covered(a, b),
{
    broadcast use vstd::seq_lib::group_to_multiset_ensures;

    assert forall|i: int| 0 <= i < a.len() implies b.contains(#[trigger] a[i]) by {
        assert(a.contains(a[i]));
        assert(b.to_multiset().count(a[i]) > 0);
    }
}

/// The best price is that of the rows, whatever their order.
proof fn lemma_best_price_of_same_rows(a: Seq<MakerQuote>, b: Seq<MakerQuote>, best: Option<u64>)
    requires
        covered(a, b),
        covered(b, a),
    ensures
        is_best_price(a, best) ==> is_best_price(b, best),
{
    if is_best_price(a, best) {
        assert forall|i: int| 0 <= i < b.len() && (#[trigger] b[i]).has_liquidity implies best
            is Some && best.unwrap() <= b[i].price_sat by {
            assert(a.contains(b[i]));
            let j = choose|j: int| 0 <= j < a.len() && a[j] == b[i];
            assert(a[j].has_liquidity);
        }
        if let Some(price) = best {
            let j = choose|j: int|
                0 <= j < a.len() && (#[trigger] a[j]).has_liquidity && a[j].price_sat == price;
            assert(b.contains(a[j]));
            let i = choose|i: int| 0 <= i < b.len() && b[i] == a[j];
            assert(b[i].has_liquidity && b[i].price_sat == price);
        }
    }
}

/// The summary does not depend on the order of the rows: it changes neither the
/// depth, nor the number of makers with liquidity, nor the best price.
pub proof fn law_summary_does_not_depend_on_order(
    a: Seq<MakerQuote>,
    b: Seq<MakerQuote>,
    best: Option<u64>,
)
    requires
        a.to_multiset() == b.to_multiset(),
    ensures
        total_max_quantity(a) == total_max_quantity(b),
        liquid(a).len() == liquid(b).len(),
        is_best_price(a, best) <==> is_best_price(b, best),
    decreases a.len(),
{
    broadcast use vstd::seq_lib::group_to_multiset_ensures;

    lemma_same_rows_cover(a, b);
    lemma_same_rows_cover(b, a);
    lemma_best_price_of_same_rows(a, b, best);
    lemma_best_price_of_same_rows(b, a, best);
    assert(a.len() == a.to_multiset().len() && b.len() == b.to_multiset().len());
    if a.len() > 0 {
        let last = a.len() - 1;
        assert(b.contains(a[last]));
        let at = choose|at: int| 0 <= at < b.len() && b[at] == a[last];
        law_summary_does_not_depend_on_order(a.remove(last), b.remove(at), None);
        lemma_liquid_remove(a, last);
        lemma_total_remove(a, last);
        lemma_liquid_remove(b, at);
        lemma_total_remove(b, at);
    } else {
        assert(b =~= a);
    }
}

/// Snapshots that hold the same rows in different orders have the same summary.
pub proof fn law_permuted_rows_have_the_same_summary(
    a: Snapshot,
    b: Snapshot,
    of_a: OrderbookResponse,
    of_b: OrderbookResponse,
)
    requires
        a.makers@.to_multiset() == b.makers@.to_multiset(),
        of_a.summarizes(a),
        of_b.summarizes(b),
    ensures
        of_a.maker_count == of_b.maker_count,
        of_a.makers_with_liquidity == of_b.makers_with_liquidity,
        of_a.best_price_sat == of_b.best_price_sat,
        of_a.total_max_quantity_sat == of_b.total_max_quantity_sat,
{
    broadcast use vstd::seq_lib::group_to_multiset_ensures;

    law_summary_does_not_depend_on_order(a.makers@, b.makers@, of_a.best_price_sat);
    assert(a.makers@.len() == a.makers@.to_multiset().len());
    assert(b.makers@.len() == b.makers@.to_multiset().len());
}

/// In rows of which those with liquidity come first, they are as many as the rows
/// with liquidity.
proof fn lemma_liquid_prefix(rows: Seq<MakerQuote>)
    requires
        forall|i: int, j: int|
            0 <= i < j < rows.len() && (#[trigger] rows[j]).has_liquidity ==> (
            #[trigger] rows[i]).has_liquidity,
    ensures
        liquid(rows).len() <= rows.len(),
        forall|i: int|
            0 <= i < rows.len() ==> ((#[trigger] rows[i]).has_liquidity <==> i < liquid(rows).len()),
    decreases rows.len(),
{
    reveal(Seq::filter);
    if rows.len() > 0 {
        let less = rows.drop_last();
        assert(forall|i: int| 0 <= i < less.len() ==> #[trigger] less[i] == rows[i]);
        lemma_liquid_prefix(less);
        if rows.last().has_liquidity && less.len() > 0 {
            assert(rows[less.len() - 1].has_liquidity);
            assert(less[less.len() - 1].has_liquidity);
        }
        assert forall|i: int| 0 <= i < rows.len() implies ((#[trigger] rows[i]).has_liquidity <==> i
            < liquid(rows).len()) by {
            if i < less.len() {
                assert(less[i].has_liquidity <==> i < liquid(less).len());
            }
        }
    }
}

/// The makers with liquidity are the first of the orderbook, and the orderbook
/// says how many they are.
pub proof fn law_makers_with_liquidity_come_first(
    snapshot: Snapshot,
    response: OrderbookResponse,
)
    requires
        response.summarizes(snapshot),
    ensures
        response.makers_with_liquidity <= response.maker_count,
        response.makers@.len() == response.maker_count,
        forall|i: int|
            0 <= i < response.makers@.len() ==> ((#[trigger] response.makers@[i]).has_liquidity
                <==> i < response.makers_with_liquidity),
{
    let rows = snapshot.makers@;
    let ranked = response.makers@;
    crate::ranking::law_ranking_is_sorted(rows, ranked);
    crate::ranking::law_ranking_keeps_the_rows(rows, ranked);
    law_summary_does_not_depend_on_order(rows, ranked, None);
    lemma_liquid_prefix(ranked);
}

/// The best price is that of the first row, if that has liquidity; where it has
/// not, no maker has, and there is no best price.
pub proof fn law_first_row_has_the_best_price(snapshot: Snapshot, response: OrderbookResponse)
    requires
        response.summarizes(snapshot),
    ensures
        response.best_price_sat == if response.makers@.len() > 0
            && response.makers@[0].has_liquidity {
            Some(response.makers@[0].price_sat)
        } else {
            None
        },
{
    let rows = snapshot.makers@;
    let ranked = response.makers@;
    crate::ranking::law_ranking_is_sorted(rows, ranked);
    crate::ranking::law_ranking_keeps_the_rows(rows, ranked);
    law_summary_does_not_depend_on_order(rows, ranked, response.best_price_sat);
}

/// The rows of a snapshot tell their liquidity rightly: it takes a price and an
/// amount.
pub proof fn law_rows_tell_their_liquidity(rows: Seq<MakerQuote>, quotes: Seq<CachedQuote>)
    requires
        rows_list(rows, quotes),
    ensures
        forall|i: int|
            0 <= i < rows.len() ==> ((#[trigger] rows[i]).has_liquidity <==> quotes[i].2.price_sat
                > 0 && quotes[i].2.max_quantity_sat > 0),
        forall|i: int| 0 <= i < rows.len() ==> (#[trigger] rows[i]).well_formed(),
{
}

/// A maker without liquidity stays out of the pricing: the best price of rows that
/// tell their liquidity rightly is never zero.
pub proof fn law_best_price_is_positive(snapshot: Snapshot, response: OrderbookResponse)
    requires
        response.summarizes(snapshot),
        forall|i: int|
            0 <= i < snapshot.makers@.len() ==> (#[trigger] snapshot.makers@[i]).well_formed(),
    ensures
        response.best_price_sat matches Some(price) ==> price > 0,
{
}

/// `/orderbook` and `/quotes` list the same makers of a snapshot, each as often as
/// the other; `/quotes` lists them in the order of the cache.
pub proof fn law_endpoints_list_the_same_makers(
    snapshot: Snapshot,
    orderbook: OrderbookResponse,
    quotes: QuotesResponse,
)
    requires
        orderbook.summarizes(snapshot),
        quotes == <QuotesResponse as vstd::std_specs::convert::FromSpec<Snapshot>>::from_spec(
            snapshot,
        ),
    ensures
        quotes.makers@ == snapshot.makers@,
        orderbook.makers@.to_multiset() == quotes.makers@.to_multiset(),
        orderbook.maker_count == quotes.maker_count,
        orderbook.generated_at == quotes.generated_at,
        orderbook.disclaimer@ == quotes.disclaimer@,
{
    crate::ranking::law_ranking_keeps_the_rows(snapshot.makers@, orderbook.makers@);
}

/// The collector is ready once it has received a quote, and no sooner; from then
/// on it stays so. It publishes an empty snapshot first, and then one for each of
/// the updates of the cache.
pub proof fn law_ready_once_a_quote_was_received(
    published: Seq<Snapshot>,
    updates: Seq<Seq<CachedQuote>>,
)
    requires
        published.len() == updates.len() + 1,
        !published[0].ready,
        forall|i: int|
            0 <= i < updates.len() ==> is_update(
                published[i],
                #[trigger] updates[i],
                published[i + 1],
            ),
    ensures
        forall|n: int|
            0 <= n < published.len() ==> ((#[trigger] published[n]).ready <==> exists|i: int|
                0 <= i < n && (#[trigger] updates[i]).len() > 0),
{
    assert forall|n: int| 0 <= n < published.len() implies ((#[trigger] published[n]).ready
        <==> exists|i: int| 0 <= i < n && (#[trigger] updates[i]).len() > 0) by {
        lemma_ready(published, updates, n);
    }
}

/// The same of one snapshot.
proof fn lemma_ready(published: Seq<Snapshot>, updates: Seq<Seq<CachedQuote>>, n: int)
    requires
        published.len() == updates.len() + 1,
        !published[0].ready,
        forall|i: int|
            0 <= i < updates.len() ==> is_update(
                published[i],
                #[trigger] updates[i],
                published[i + 1],
            ),
        0 <= n < published.len(),
    ensures
        published[n].ready <==> exists|i: int| 0 <= i < n && (#[trigger] updates[i]).len() > 0,
    decreases n,
{
    if n > 0 {
        lemma_ready(published, updates, n - 1);
        assert(is_update(published[n - 1], updates[n - 1], published[n]));
    }
}

} // verus!
