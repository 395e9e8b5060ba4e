//! `/orderbook` and `/quotes`.
use crate::api::{MakerQuote, OrderbookResponse, QuotesResponse, Snapshot};
use vstd::prelude::*;

verus! {

/// The orderbook of no makers is empty: it has no depth and no best price.
pub proof fn law_an_empty_orderbook(snapshot: Snapshot, response: OrderbookResponse)
    requires
        snapshot.makers@.len() == 0,
        call_ensures(OrderbookResponse::from, (snapshot,), response),
    ensures
        response.total_max_quantity_sat == 0,
        response.maker_count == 0,
        response.makers_with_liquidity == 0,
        response.best_price_sat is None,
        response.makers@.len() == 0,
{
    reveal(Seq::filter);
}

/// One maker more raises the depth by exactly what it accepts, the number of makers by
/// one, and the number of makers with liquidity by one if it has some. The best price
/// becomes its price where it has liquidity and asks for less than all others that have.
pub proof fn law_one_maker_more(
    fewer: Snapshot,
    more: Snapshot,
    maker: MakerQuote,
    before: OrderbookResponse,
    after: OrderbookResponse,
)
    requires
        more.makers@ == fewer.makers@.push(maker),
        call_ensures(OrderbookResponse::from, (fewer,), before),
        call_ensures(OrderbookResponse::from, (more,), after),
    ensures
        after.total_max_quantity_sat == before.total_max_quantity_sat + maker.max_quantity_sat,
        after.maker_count == before.maker_count + 1,
        after.makers_with_liquidity == before.makers_with_liquidity + if maker.has_liquidity {
            1int
        } else {
            0int
        },
        after.best_price_sat == if !maker.has_liquidity {
            before.best_price_sat
        } else {
            match before.best_price_sat {
                Some(price) if price <= maker.price_sat => Some(price),
                _ => Some(maker.price_sat),
            }
        },
{
    let rows = fewer.makers@;
    assert(more.makers@.drop_last() =~= rows);
    reveal(Seq::filter);
    lemma_best_price_push(rows, maker, before.best_price_sat, after.best_price_sat);
}

/// The best price with one row more.
proof fn lemma_best_price_push(
    rows: Seq<MakerQuote>,
    row: MakerQuote,
    before: Option<u64>,
    after: Option<u64>,
)
    requires
        crate::api::is_best_price(rows, before),
        crate::api::is_best_price(rows.push(row), after),
    ensures
        after == if !row.has_liquidity {
            before
        } else {
            match before {
                Some(price) if price <= row.price_sat => Some(price),
                _ => Some(row.price_sat),
            }
        },
{
    let more = rows.push(row);
    assert(more[rows.len() as int] == row);
    assert(forall|i: int| 0 <= i < rows.len() ==> more[i] == #[trigger] rows[i]);
    if let Some(price) = before {
        let i = choose|i: int|
            0 <= i < rows.len() && (#[trigger] rows[i]).has_liquidity && rows[i].price_sat == price;
        assert(more[i].has_liquidity && more[i].price_sat == price);
    }
    if let Some(price) = after {
        let i = choose|i: int|
            0 <= i < more.len() && (#[trigger] more[i]).has_liquidity && more[i].price_sat == price;
        if i < rows.len() {
            assert(rows[i].has_liquidity && rows[i].price_sat == price);
        }
    }
}

/// The depth is what is left when the maximum quantities of the listed makers are added
/// up one by one, and no less than any of them.
pub proof fn law_the_depth_is_a_sum(snapshot: Snapshot, response: OrderbookResponse)
    requires
        call_ensures(OrderbookResponse::from, (snapshot,), response),
    ensures
        response.total_max_quantity_sat as int == response.makers@.fold_left(
            0int,
            |sum: int, row: MakerQuote| sum + row.max_quantity_sat,
        ),
        forall|i: int|
            0 <= i < response.makers@.len() ==> (#[trigger] response.makers@[i]).max_quantity_sat
                <= response.total_max_quantity_sat,
{
    let rows = snapshot.makers@;
    let ranked = response.makers@;
    crate::ranking::law_ranking_keeps_the_rows(rows, ranked);
    crate::api::law_summary_does_not_depend_on_order(rows, ranked, None);
    lemma_fold(ranked);
    assert forall|i: int| 0 <= i < ranked.len() implies (#[trigger] ranked[i]).max_quantity_sat
        <= response.total_max_quantity_sat by {
        lemma_part_of_total(ranked, i);
    }
}

/// Adding up is a fold.
proof fn lemma_fold(rows: Seq<MakerQuote>)
    ensures
        crate::api::total_max_quantity(rows) == rows.fold_left(
            0int,
            |sum: int, row: MakerQuote| sum + row.max_quantity_sat,
        ),
    decreases rows.len(),
{
    reveal_with_fuel(Seq::fold_left, 2);
    if rows.len() > 0 {
        lemma_fold(rows.drop_last());
    }
}

/// A part is no larger than the sum.
proof fn lemma_part_of_total(rows: Seq<MakerQuote>, i: int)
    requires
        0 <= i < rows.len(),
    ensures
        rows[i].max_quantity_sat <= crate::api::total_max_quantity(rows),
    decreases rows.len(),
{
    if i < rows.len() - 1 {
        lemma_part_of_total(rows.drop_last(), i);
        assert(rows.drop_last()[i] == rows[i]);
    }
}

/// What the orderbook says of itself: the market, the time of the snapshot, the number
/// of the makers that it lists, and the disclaimer.
pub proof fn law_the_orderbook_is_of_its_snapshot(snapshot: Snapshot, response: OrderbookResponse)
    requires
        call_ensures(OrderbookResponse::from, (snapshot,), response),
    ensures
        response.market@ == "XMR/BTC"@,
        response.generated_at == snapshot.generated_at,
        response.maker_count == snapshot.makers@.len(),
        response.maker_count == response.makers@.len(),
        response.disclaimer@
            == "Values are indicative maker quotes refreshed on a poll interval, not executed trades or resting limit orders. `price_sat` is the amount of BTC (in satoshis) a maker asks for 1 XMR. `max_quantity_sat` is bounded by the maker's available Monero inventory."@,
{
    crate::ranking::law_ranking_keeps_the_rows(snapshot.makers@, response.makers@);
}

/// The orderbook lists the makers of the snapshot, each as often as it is there: first
/// those with liquidity, as many as it says, then the others, each by ascending price.
/// Makers that are alike in both are listed in the order of the snapshot.
pub proof fn law_the_orderbook_is_ranked(
    snapshot: Snapshot,
    response: OrderbookResponse,
    has_liquidity: bool,
    price_sat: u64,
)
    requires
        call_ensures(OrderbookResponse::from, (snapshot,), response),
    ensures
        response.makers@.to_multiset() == snapshot.makers@.to_multiset(),
        forall|i: int|
            0 <= i < response.makers@.len() ==> ((#[trigger] response.makers@[i]).has_liquidity
                <==> i < response.makers_with_liquidity),
        forall|i: int, j: int|
            0 <= i < j < response.makers_with_liquidity ==> (
            #[trigger] response.makers@[i]).price_sat <= (#[trigger] response.makers@[j]).price_sat,
        forall|i: int, j: int|
            response.makers_with_liquidity <= i < j < response.makers@.len() ==> (
            #[trigger] response.makers@[i]).price_sat <= (#[trigger] response.makers@[j]).price_sat,
        response.makers@.filter(
            |row: MakerQuote| row.has_liquidity == has_liquidity && row.price_sat == price_sat,
        ) == snapshot.makers@.filter(
            |row: MakerQuote| row.has_liquidity == has_liquidity && row.price_sat == price_sat,
        ),
{
    let rows = snapshot.makers@;
    let ranked = response.makers@;
    crate::ranking::law_ranking_keeps_the_rows(rows, ranked);
    crate::ranking::law_ranking_is_sorted(rows, ranked);
    crate::ranking::law_alike_rows_keep_their_order(rows, ranked, has_liquidity, price_sat);
    crate::api::law_makers_with_liquidity_come_first(snapshot, response);
}

/// The same of the sort alone.
pub proof fn law_makers_are_ranked(
    rows: Vec<MakerQuote>,
    ranked: Vec<MakerQuote>,
    has_liquidity: bool,
    price_sat: u64,
)
    requires
        call_ensures(crate::ranking::rank_makers, (rows,), ranked),
    ensures
        ranked@.to_multiset() == rows@.to_multiset(),
        ranked@.len() == rows@.len(),
        forall|i: int, j: int|
            0 <= i < j < ranked@.len() ==> {
                let (a, b) = (#[trigger] ranked@[i], #[trigger] ranked@[j]);
                &&& b.has_liquidity ==> a.has_liquidity
                &&& a.has_liquidity == b.has_liquidity ==> a.price_sat <= b.price_sat
            },
        ranked@.filter(
            |row: MakerQuote| row.has_liquidity == has_liquidity && row.price_sat == price_sat,
        ) == rows@.filter(
            |row: MakerQuote| row.has_liquidity == has_liquidity && row.price_sat == price_sat,
        ),
{
    crate::ranking::law_ranking_keeps_the_rows(rows@, ranked@);
    crate::ranking::law_ranking_is_sorted(rows@, ranked@);
    crate::ranking::law_alike_rows_keep_their_order(rows@, ranked@, has_liquidity, price_sat);
}

/// The best price is what a listed maker with liquidity asks for, and none of them asks
/// for less; there is none just where no listed maker has liquidity.
pub proof fn law_the_best_price_is_the_lowest_ask(snapshot: Snapshot, response: OrderbookResponse)
    requires
        call_ensures(OrderbookResponse::from, (snapshot,), response),
    ensures
        response.best_price_sat is Some <==> exists|i: int|
            0 <= i < snapshot.makers@.len() && (#[trigger] snapshot.makers@[i]).has_liquidity,
        response.best_price_sat matches Some(price) ==> {
            &&& exists|i: int|
                0 <= i < snapshot.makers@.len() && (#[trigger] snapshot.makers@[i]).has_liquidity
                    && snapshot.makers@[i].price_sat == price
            &&& forall|i: int|
                0 <= i < snapshot.makers@.len() && (#[trigger] snapshot.makers@[i]).has_liquidity
                    ==> price <= snapshot.makers@[i].price_sat
        },
        response.best_price_sat == if response.makers@.len() > 0
            && response.makers@[0].has_liquidity {
            Some(response.makers@[0].price_sat)
        } else {
            None
        },
{
    crate::api::law_first_row_has_the_best_price(snapshot, response);
}

/// The three parts of the summary, each with one row more and without rows.
pub proof fn law_the_summary_grows_row_by_row(
    fewer: &[MakerQuote],
    more: &[MakerQuote],
    row: MakerQuote,
    counts: (usize, usize),
    prices: (Option<u64>, Option<u64>),
    totals: (Option<u64>, Option<u64>),
)
    requires
        more@ == fewer@.push(row),
        call_ensures(crate::api::count_liquid, (fewer,), counts.0),
        call_ensures(crate::api::count_liquid, (more,), counts.1),
        call_ensures(crate::api::best_price, (fewer,), prices.0),
        call_ensures(crate::api::best_price, (more,), prices.1),
        call_ensures(crate::api::sum_max_quantity, (fewer,), totals.0),
        call_ensures(crate::api::sum_max_quantity, (more,), totals.1),
    ensures
        fewer@.len() == 0 ==> counts.0 == 0 && prices.0 is None && totals.0 == Some(0u64),
        counts.1 == counts.0 + if row.has_liquidity {
            1int
        } else {
            0int
        },
        prices.1 == if !row.has_liquidity {
            prices.0
        } else {
            match prices.0 {
                Some(price) if price <= row.price_sat => Some(price),
                _ => Some(row.price_sat),
            }
        },
        totals.1 == match totals.0 {
            Some(total) if total + row.max_quantity_sat <= u64::MAX => Some(
                (total + row.max_quantity_sat) as u64,
            ),
            _ => None,
        },
{
    assert(more@.drop_last() =~= fewer@);
    reveal(Seq::filter);
    lemma_best_price_push(fewer@, row, prices.0, prices.1);
}

/// `/quotes` lists the rows of the snapshot as they are, and counts them.
pub proof fn law_quotes_are_the_rows_of_the_snapshot(snapshot: Snapshot, response: QuotesResponse)
    requires
        call_ensures(<QuotesResponse as From<Snapshot>>::from, (snapshot,), response),
    ensures
        response.makers@ == snapshot.makers@,
        response.maker_count == snapshot.makers@.len(),
        response.generated_at == snapshot.generated_at,
        response.disclaimer@
            == "Values are indicative maker quotes refreshed on a poll interval, not executed trades or resting limit orders. `price_sat` is the amount of BTC (in satoshis) a maker asks for 1 XMR. `max_quantity_sat` is bounded by the maker's available Monero inventory."@,
{
}

/// From the cache to the orderbook: the depth is the sum of what the cached quotes
/// accept, and a maker is counted as having liquidity just where its quote has both a
/// price and an amount.
pub proof fn law_the_orderbook_is_of_the_cached_quotes(
    fewer: Vec<crate::api::CachedQuote>,
    more: Vec<crate::api::CachedQuote>,
    now: crate::time::Timestamp,
    snapshots: (Snapshot, Snapshot),
    before: OrderbookResponse,
    after: OrderbookResponse,
)
    requires
        more@.len() == fewer@.len() + 1,
        forall|i: int| 0 <= i < fewer@.len() ==> more@[i] == #[trigger] fewer@[i],
        call_ensures(Snapshot::from_cached_quotes_at, (fewer, now), snapshots.0),
        call_ensures(Snapshot::from_cached_quotes_at, (more, now), snapshots.1),
        call_ensures(OrderbookResponse::from, (snapshots.0,), before),
        call_ensures(OrderbookResponse::from, (snapshots.1,), after),
    ensures
        after.total_max_quantity_sat == before.total_max_quantity_sat
            + more@.last().2.max_quantity_sat,
        after.maker_count == before.maker_count + 1,
        after.makers_with_liquidity == before.makers_with_liquidity + if more@.last().2.price_sat
            > 0 && more@.last().2.max_quantity_sat > 0 {
            1int
        } else {
            0int
        },
{
    reveal(Seq::filter);
    let a = snapshots.0.makers@;
    let b = snapshots.1.makers@;
    assert(b[b.len() - 1].max_quantity_sat == more@[more@.len() - 1].2.max_quantity_sat);
    assert forall|i: int| 0 <= i < a.len() implies (#[trigger] a[i]).max_quantity_sat
        == b.drop_last()[i].max_quantity_sat && a[i].has_liquidity
        == b.drop_last()[i].has_liquidity by {
        assert(more@[i] == fewer@[i]);
        assert(b[i].max_quantity_sat == more@[i].2.max_quantity_sat);
    }
    lemma_alike(a, b.drop_last());
}

/// Rows that are alike in what is counted add up alike.
proof fn lemma_alike(a: Seq<MakerQuote>, b: Seq<MakerQuote>)
    requires
        a.len() == b.len(),
        forall|i: int|
            0 <= i < a.len() ==> (#[trigger] a[i]).max_quantity_sat == b[i].max_quantity_sat
                && a[i].has_liquidity == b[i].has_liquidity,
    ensures
        crate::api::total_max_quantity(a) == crate::api::total_max_quantity(b),
        crate::api::liquid(a).len() == crate::api::liquid(b).len(),
    decreases a.len(),
{
    reveal(Seq::filter);
    if a.len() > 0 {
        assert(forall|i: int| 0 <= i < a.len() - 1 ==> #[trigger] a.drop_last()[i] == a[i]);
        lemma_alike(a.drop_last(), b.drop_last());
        assert(a[a.len() - 1].max_quantity_sat == b[b.len() - 1].max_quantity_sat);
    }
}

} // verus!
