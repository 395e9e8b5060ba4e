//! The order of the orderbook: makers with liquidity first, then ascending price.
use crate::api::MakerQuote;
use vstd::prelude::*;

verus! {

/// `a` stands before `b` whatever their places were: it has liquidity and `b` has
/// none, or they are alike in that and `a` asks for less.
pub open spec fn better(a: MakerQuote, b: MakerQuote) -> bool {
    ||| a.has_liquidity && !b.has_liquidity
    ||| a.has_liquidity == b.has_liquidity && a.price_sat < b.price_sat
}

/// The row at place `i` of `rows` stands before the row at place `j`: it is
/// better, or neither is better and it came first.
pub open spec fn before(rows: Seq<MakerQuote>, i: int, j: int) -> bool {
    ||| better(rows[i], rows[j])
    ||| !better(rows[j], rows[i]) && i < j
}

/// `places` holds every place of `rows` once, and names them in the order in which
/// their rows stand.
pub open spec fn ranks(rows: Seq<MakerQuote>, places: Seq<int>) -> bool {
    &&& places.len() == rows.len()
    &&& forall|i: int| 0 <= i < places.len() ==> 0 <= #[trigger] places[i] < rows.len()
    &&& forall|place: int| 0 <= place < rows.len() ==> #[trigger] places.contains(place)
    &&& forall|i: int, j: int|
        0 <= i < j < places.len() ==> before(rows, #[trigger] places[i], #[trigger] places[j])
}

/// `ranked` holds the rows at the given places.
pub open spec fn picks(rows: Seq<MakerQuote>, places: Seq<int>, ranked: Seq<MakerQuote>) -> bool {
    &&& ranked.len() == places.len()
    &&& forall|i: int| 0 <= i < ranked.len() ==> #[trigger] ranked[i] == rows[places[i]]
}

/// `ranked` holds each of `rows` once, makers with liquidity first, then by
/// ascending price, and rows that are alike in both in the order that they had.
pub open spec fn is_ranking(rows: Seq<MakerQuote>, ranked: Seq<MakerQuote>) -> bool {
    exists|places: Seq<int>| #[trigger] ranks(rows, places) && picks(rows, places, ranked)
}

/// Whether `a` stands before `b` whatever their places were.
fn is_better(a: &MakerQuote, b: &MakerQuote) -> (result: bool)
    ensures
        result == better(*a, *b),
{
    if a.has_liquidity == b.has_liquidity {
        a.price_sat < b.price_sat
    } else {
        a.has_liquidity
    }
}

/// Putting one more row before the others: its place is 0, the places of the
/// others grow by one.
proof fn lemma_insert(
    first: MakerQuote,
    rest: Seq<MakerQuote>,
    places: Seq<int>,
    ranked: Seq<MakerQuote>,
    at: int,
)
    requires
        ranks(rest, places),
        picks(rest, places, ranked),
        0 <= at <= ranked.len(),
        forall|i: int| 0 <= i < at ==> better(#[trigger] ranked[i], first),
        at < ranked.len() ==> !better(ranked[at], first),
    ensures
        is_ranking(seq![first] + rest, ranked.insert(at, first)),
{
    let rows = seq![first] + rest;
    let moved = places.map_values(|place: int| place + 1);
    let all = moved.insert(at, 0);
    assert forall|i: int| at <= i < ranked.len() implies !better(#[trigger] ranked[i], first) by {
        if at < i {
            assert(before(rest, places[at], places[i]));
        }
    }
    assert forall|place: int| 0 <= place < rows.len() implies #[trigger] all.contains(place) by {
        if place == 0 {
            assert(all[at] == 0);
        } else {
            assert(places.contains(place - 1));
            let i = choose|i: int| 0 <= i < places.len() && places[i] == place - 1;
            assert(moved[i] == place);
            if i < at {
                assert(all[i] == place);
            } else {
                assert(all[i + 1] == place);
            }
        }
    }
    assert forall|i: int, j: int| 0 <= i < j < all.len() implies before(
        rows,
        #[trigger] all[i],
        #[trigger] all[j],
    ) by {
        if i != at && j != at {
            let p = if i < at {
                i
            } else {
                i - 1
            };
            let q = if j < at {
                j
            } else {
                j - 1
            };
            assert(all[i] == places[p] + 1 && all[j] == places[q] + 1);
            assert(before(rest, places[p], places[q]));
        } else if i == at {
            assert(all[j] == places[j - 1] + 1);
            assert(ranked[j - 1] == rest[places[j - 1]]);
        } else {
            assert(all[i] == places[i] + 1);
            assert(ranked[i] == rest[places[i]]);
        }
    }
    assert(ranks(rows, all));
    assert(picks(rows, all, ranked.insert(at, first)));
}

/// Sorts the rows, makers with liquidity first and then by ascending price; rows
/// that are alike in both keep their order.
pub fn rank_makers(rows: Vec<MakerQuote>) -> (ranked: Vec<MakerQuote>)
    ensures
        is_ranking(rows@, ranked@),
{
    let ghost all = rows@;
    let mut rows = rows;
    let mut ranked: Vec<MakerQuote> = Vec::new();
    proof {
        let none = Seq::<int>::empty();
        assert(all.skip(all.len() as int) =~= Seq::empty());
        assert(ranks(Seq::empty(), none) && picks(Seq::empty(), none, ranked@));
    }
    while rows.len() > 0
        invariant
            rows@.len() <= all.len(),
            rows@ == all.take(rows@.len() as int),
            is_ranking(all.skip(rows@.len() as int), ranked@),
        decreases rows@.len(),
    {
        let ghost n = rows@.len() as int;
        let ghost rest = all.skip(n);
        let row = rows.pop().unwrap();
        let mut at: usize = 0;
        while at < ranked.len() && is_better(&ranked[at], &row)
            invariant
                at <= ranked@.len(),
                forall|i: int| 0 <= i < at ==> better(#[trigger] ranked@[i], row),
            decreases ranked@.len() - at,
        {
            at += 1;
        }
        proof {
            let places = choose|places: Seq<int>| #[trigger]
                ranks(rest, places) && picks(rest, places, ranked@);
            lemma_insert(row, rest, places, ranked@, at as int);
            assert(seq![row] + rest =~= all.skip(n - 1));
            assert(rows@ =~= all.take(n - 1));
        }
        ranked.insert(at, row);
    }
    assert(all.skip(0) =~= all);
    ranked
}

/// There is one ranking of given rows, and no other.
pub proof fn law_ranking_is_unique(
    rows: Seq<MakerQuote>,
    one: Seq<MakerQuote>,
    other: Seq<MakerQuote>,
)
    requires
        is_ranking(rows, one),
        is_ranking(rows, other),
    ensures
        one == other,
{
    let p = choose|places: Seq<int>| #[trigger] ranks(rows, places) && picks(rows, places, one);
    let q = choose|places: Seq<int>| #[trigger] ranks(rows, places) && picks(rows, places, other);
    assert forall|i: int| 0 <= i < rows.len() implies p[i] == q[i] by {
        lemma_same_place(rows, p, q, i);
    }
    assert(one =~= other);
}

/// Two lists of ranked places name the same place first, second and so on.
proof fn lemma_same_place(rows: Seq<MakerQuote>, p: Seq<int>, q: Seq<int>, i: int)
    requires
        ranks(rows, p),
        ranks(rows, q),
        0 <= i < rows.len(),
    ensures
        p[i] == q[i],
    decreases i,
{
    assert forall|j: int| 0 <= j < i implies p[j] == q[j] by {
        lemma_same_place(rows, p, q, j);
    }
    assert(q.contains(p[i]) && p.contains(q[i]));
    let k = choose|k: int| 0 <= k < q.len() && q[k] == p[i];
    let l = choose|l: int| 0 <= l < p.len() && p[l] == q[i];
    if k < i {
        assert(before(rows, p[k], p[i]));
    } else if l < i {
        assert(before(rows, q[l], q[i]));
    } else if k > i && l > i {
        assert(before(rows, q[i], q[k]));
        assert(before(rows, p[i], p[l]));
    }
}

/// Taking away the last of the rows leaves a ranking of the others.
proof fn lemma_without_last(rows: Seq<MakerQuote>, ranked: Seq<MakerQuote>) -> (at: int)
    requires
        is_ranking(rows, ranked),
        rows.len() > 0,
    ensures
        0 <= at < ranked.len(),
        ranked[at] == rows.last(),
        is_ranking(rows.drop_last(), ranked.remove(at)),
        forall|i: int| at < i < ranked.len() ==> better(ranked[at], #[trigger] ranked[i]),
{
    let places = choose|places: Seq<int>| #[trigger]
        ranks(rows, places) && picks(rows, places, ranked);
    let last = rows.len() - 1;
    let rest = rows.drop_last();
    assert(places.contains(last));
    let at = choose|i: int| 0 <= i < places.len() && places[i] == last;
    let fewer = places.remove(at);
    assert forall|i: int| 0 <= i < fewer.len() implies 0 <= #[trigger] fewer[i] < rest.len() by {
        if i < at {
            assert(before(rows, places[i], places[at]));
        } else {
            assert(before(rows, places[at], places[i + 1]));
        }
    }
    assert forall|place: int| 0 <= place < rest.len() implies #[trigger] fewer.contains(place) by {
        assert(places.contains(place));
        let i = choose|i: int| 0 <= i < places.len() && places[i] == place;
        if i < at {
            assert(fewer[i] == place);
        } else {
            assert(fewer[i - 1] == place);
        }
    }
    assert forall|i: int, j: int| 0 <= i < j < fewer.len() implies before(
        rest,
        #[trigger] fewer[i],
        #[trigger] fewer[j],
    ) by {
        let p = if i < at {
            i
        } else {
            i + 1
        };
        let q = if j < at {
            j
        } else {
            j + 1
        };
        assert(before(rows, places[p], places[q]));
    }
    assert(ranks(rest, fewer));
    assert(picks(rest, fewer, ranked.remove(at)));
    assert forall|i: int| at < i < ranked.len() implies better(ranked[at], #[trigger] ranked[i]) by {
        assert(before(rows, places[at], places[i]));
        assert(0 <= places[i] < rows.len());
    }
    at
}

/// Rows without a row that is out of the question, and with one that comes after all
/// that are.
proof fn lemma_filter_remove(
    rows: Seq<MakerQuote>,
    wanted: spec_fn(MakerQuote) -> bool,
    at: int,
)
    requires
        0 <= at < rows.len(),
        wanted(rows[at]) ==> forall|i: int| at < i < rows.len() ==> !wanted(#[trigger] rows[i]),
    ensures
        rows.filter(wanted) == if wanted(rows[at]) {
            rows.remove(at).filter(wanted).push(rows[at])
        } else {
            rows.remove(at).filter(wanted)
        },
    decreases rows.len(),
{
    reveal(Seq::filter);
    if at == rows.len() - 1 {
        assert(rows.remove(at) =~= rows.drop_last());
    } else {
        let less = rows.drop_last();
        assert(forall|i: int| 0 <= i < less.len() ==> #[trigger] less[i] == rows[i]);
        lemma_filter_remove(less, wanted, at);
        assert(rows.remove(at).drop_last() =~= less.remove(at));
        assert(rows.remove(at).last() == rows.last());
        if wanted(rows[at]) {
            assert(!wanted(rows[rows.len() - 1]));
        }
    }
}

/// Rows that are alike in liquidity and price keep their order: those of any one
/// liquidity and price are the same before and after.
pub proof fn law_alike_rows_keep_their_order(
    rows: Seq<MakerQuote>,
    ranked: Seq<MakerQuote>,
    has_liquidity: bool,
    price_sat: u64,
)
    requires
        is_ranking(rows, ranked),
    ensures
        ranked.filter(
            |row: MakerQuote| row.has_liquidity == has_liquidity && row.price_sat == price_sat,
        ) == rows.filter(
            |row: MakerQuote| row.has_liquidity == has_liquidity && row.price_sat == price_sat,
        ),
    decreases rows.len(),
{
    let alike = |row: MakerQuote| row.has_liquidity == has_liquidity && row.price_sat == price_sat;
    if rows.len() == 0 {
        assert(ranked =~= rows);
    } else {
        let at = lemma_without_last(rows, ranked);
        law_alike_rows_keep_their_order(
            rows.drop_last(),
            ranked.remove(at),
            has_liquidity,
            price_sat,
        );
        lemma_filter_remove(ranked, alike, at);
        lemma_filter_remove(rows, alike, rows.len() - 1);
        assert(rows.remove(rows.len() - 1) =~= rows.drop_last());
    }
}

/// Ranking neither loses a row nor adds one: each row is listed as often as it
/// was.
pub proof fn law_ranking_keeps_the_rows(rows: Seq<MakerQuote>, ranked: Seq<MakerQuote>)
    requires
        is_ranking(rows, ranked),
    ensures
        ranked.to_multiset() == rows.to_multiset(),
        ranked.len() == rows.len(),
    decreases rows.len(),
{
    broadcast use vstd::seq_lib::group_to_multiset_ensures;

    if rows.len() == 0 {
        assert(ranked =~= rows);
    } else {
        let at = lemma_without_last(rows, ranked);
        law_ranking_keeps_the_rows(rows.drop_last(), ranked.remove(at));
        assert(rows.drop_last().push(rows.last()) =~= rows);
        assert(ranked.remove(at).insert(at, ranked[at]) =~= ranked);
    }
}

/// A ranking is sorted: makers with liquidity first, then ascending price.
pub proof fn law_ranking_is_sorted(rows: Seq<MakerQuote>, ranked: Seq<MakerQuote>)
    requires
        is_ranking(rows, ranked),
    ensures
        forall|i: int, j: int|
            0 <= i < j < ranked.len() && (#[trigger] ranked[j]).has_liquidity ==> (
            #[trigger] ranked[i]).has_liquidity,
        forall|i: int, j: int|
            0 <= i < j < ranked.len() && (#[trigger] ranked[i]).has_liquidity == (
            #[trigger] ranked[j]).has_liquidity ==> ranked[i].price_sat <= ranked[j].price_sat,
{
    let places = choose|places: Seq<int>| #[trigger]
        ranks(rows, places) && picks(rows, places, ranked);
    assert forall|i: int, j: int| 0 <= i < j < ranked.len() implies !better(
        #[trigger] ranked[j],
        #[trigger] ranked[i],
    ) by {
        assert(before(rows, places[i], places[j]));
    }
}

} // verus!
