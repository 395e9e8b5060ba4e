//! `/status`.
use crate::address::PeerId;
use crate::api::{MakerQuote, Snapshot};
use crate::status::{Network, PollOutcome, StatusResponse, VersionCount};
use crate::time::Timestamp;
use vstd::prelude::*;

verus! {

/// One where `holds`, and nothing otherwise.
pub open spec fn one_if(holds: bool) -> int {
    if holds {
        1
    } else {
        0
    }
}

/// What the status takes over as it is: the time, whether the collector is ready, our
/// version, and how many peers are connected, makers are known and makers are listed.
pub proof fn law_the_status_is_of_its_snapshot_and_network(
    snapshot: Snapshot,
    network: Network,
    now: Timestamp,
    response: StatusResponse,
)
    requires
        call_ensures(StatusResponse::at, (&snapshot, &network, now), response),
    ensures
        response.generated_at == now,
        response.ready == snapshot.ready,
        response.our_version == network.our_version,
        response.connected_peers == network.connected@.len(),
        response.discovered_peers == network.polls@.len(),
        response.maker_count == snapshot.makers@.len(),
{
}

/// Each count of polls belongs to its own outcome: one known maker more raises the count
/// of what its poll came to, and no other; while it has not answered, it raises none.
pub proof fn law_one_poll_more(
    snapshot: Snapshot,
    fewer: Network,
    more: Network,
    peer: PeerId,
    outcome: PollOutcome,
    now: Timestamp,
    before: StatusResponse,
    after: StatusResponse,
)
    requires
        more.polls@ == fewer.polls@.push((peer, outcome)),
        call_ensures(StatusResponse::at, (&snapshot, &fewer, now), before),
        call_ensures(StatusResponse::at, (&snapshot, &more, now), after),
    ensures
        after.discovered_peers == before.discovered_peers + 1,
        after.quotes_received == before.quotes_received + one_if(outcome is Received),
        after.quotes_not_supported == before.quotes_not_supported + one_if(outcome is NotSupported),
        after.quotes_failed == before.quotes_failed + one_if(outcome is Failed),
{
    reveal(Seq::filter);
    assert(more.polls@.drop_last() =~= fewer.polls@);
}

/// Where all polls came to one outcome, the count of that outcome is the number of known
/// makers, and the others are zero.
pub proof fn law_polls_of_one_outcome(
    snapshot: Snapshot,
    network: Network,
    outcome: PollOutcome,
    now: Timestamp,
    response: StatusResponse,
)
    requires
        forall|i: int| 0 <= i < network.polls@.len() ==> (#[trigger] network.polls@[i]).1 == outcome,
        call_ensures(StatusResponse::at, (&snapshot, &network, now), response),
    ensures
        response.quotes_received == if outcome is Received {
            response.discovered_peers
        } else {
            0
        },
        response.quotes_not_supported == if outcome is NotSupported {
            response.discovered_peers
        } else {
            0
        },
        response.quotes_failed == if outcome is Failed {
            response.discovered_peers
        } else {
            0
        },
{
    lemma_polls_of_one_outcome(network.polls@, outcome, PollOutcome::Received);
    lemma_polls_of_one_outcome(network.polls@, outcome, PollOutcome::NotSupported);
    lemma_polls_of_one_outcome(network.polls@, outcome, PollOutcome::Failed);
}

/// Of polls that all came to `outcome`, all or none came to `wanted`.
proof fn lemma_polls_of_one_outcome(
    polls: Seq<(PeerId, PollOutcome)>,
    outcome: PollOutcome,
    wanted: PollOutcome,
)
    requires
        forall|i: int| 0 <= i < polls.len() ==> (#[trigger] polls[i]).1 == outcome,
    ensures
        crate::status::polls_with(polls, wanted).len() == if outcome == wanted {
            polls.len()
        } else {
            0
        },
    decreases polls.len(),
{
    reveal(Seq::filter);
    if polls.len() > 0 {
        let less = polls.drop_last();
        assert(forall|i: int| 0 <= i < less.len() ==> #[trigger] less[i] == polls[i]);
        lemma_polls_of_one_outcome(less, outcome, wanted);
        assert(polls[polls.len() - 1].1 == outcome);
    }
}

/// One rendezvous address more raises the number of nodes if no address of its node was
/// there, and then the number of connected nodes if that node is connected. Without
/// addresses both are zero.
pub proof fn law_one_rendezvous_address_more(
    snapshot: Snapshot,
    fewer: Network,
    more: Network,
    node: PeerId,
    now: Timestamp,
    before: StatusResponse,
    after: StatusResponse,
)
    requires
        more.rendezvous@ == fewer.rendezvous@.push(node),
        more.connected@ == fewer.connected@,
        call_ensures(StatusResponse::at, (&snapshot, &fewer, now), before),
        call_ensures(StatusResponse::at, (&snapshot, &more, now), after),
    ensures
        fewer.rendezvous@.len() == 0 ==> before.rendezvous_total == 0
            && before.rendezvous_connected == 0,
        ({
            let new = forall|i: int|
                0 <= i < fewer.rendezvous@.len() ==> (#[trigger] fewer.rendezvous@[i])@ != node@;
            let connected = exists|i: int|
                0 <= i < fewer.connected@.len() && (#[trigger] fewer.connected@[i])@ == node@;
            &&& after.rendezvous_total == before.rendezvous_total + one_if(new)
            &&& after.rendezvous_connected == before.rendezvous_connected + one_if(new && connected)
        }),
{
    reveal(Seq::filter);
    assert(more.rendezvous@.drop_last() =~= fewer.rendezvous@);
    let once = crate::status::each_once(fewer.rendezvous@);
    assert(once.push(node).drop_last() =~= once);
}

/// How many makers the counts list under a version.
pub open spec fn listed(counts: Seq<VersionCount>, version: Seq<char>) -> int {
    if exists|i: int| 0 <= i < counts.len() && (#[trigger] counts[i]).version@ == version {
        let i = choose|i: int|
            0 <= i < counts.len() && (#[trigger] counts[i]).version@ == version;
        counts[i].makers as int
    } else {
        0
    }
}

/// Under what a maker is listed: its version, or `unknown` where it advertises none.
pub open spec fn advertised(row: MakerQuote) -> Seq<char> {
    match row.version {
        Some(version) => version@,
        None => "unknown"@,
    }
}

/// The counts list as many makers under a version as there are.
proof fn lemma_listed(counts: Seq<VersionCount>, rows: Seq<MakerQuote>, version: Seq<char>)
    requires
        crate::status::counts_versions(counts, rows),
    ensures
        listed(counts, version) == crate::status::makers_labelled(rows, version).len(),
{
    let wanted = |row: MakerQuote| crate::status::version_label(row) == version;
    if exists|i: int| 0 <= i < counts.len() && (#[trigger] counts[i]).version@ == version {
        let i = choose|i: int|
            0 <= i < counts.len() && (#[trigger] counts[i]).version@ == version;
        assert(counts[i].makers == crate::status::makers_labelled(rows, counts[i].version@).len());
    } else {
        let found = rows.filter(wanted);
        if found.len() > 0 {
            rows.lemma_filter_pred(wanted, 0);
            assert(found.contains(found[0]));
            rows.lemma_filter_contains_rev(wanted, found[0]);
            let k = choose|k: int| 0 <= k < rows.len() && rows[k] == found[0];
            assert(crate::status::is_counted(counts, crate::status::version_label(rows[k])));
        }
    }
}

/// One listed maker more raises the number of makers by one, the number of makers with
/// liquidity by one if it has some, the number of makers that are ahead of us by one if
/// its version is newer than ours, and the number of makers of its own version by one,
/// of no other version. Without makers all of these are zero.
pub proof fn law_one_maker_more(
    fewer: Snapshot,
    more: Snapshot,
    maker: MakerQuote,
    network: Network,
    now: Timestamp,
    before: StatusResponse,
    after: StatusResponse,
    version: Seq<char>,
)
    requires
        more.makers@ == fewer.makers@.push(maker),
        call_ensures(StatusResponse::at, (&fewer, &network, now), before),
        call_ensures(StatusResponse::at, (&more, &network, now), after),
    ensures
        after.maker_count == before.maker_count + 1,
        after.makers_with_liquidity == before.makers_with_liquidity + one_if(maker.has_liquidity),
        after.makers_newer_than_ours == before.makers_newer_than_ours + one_if(
            network.our_version is Some && maker.version is Some && maker.version->0@
                != network.our_version->0@ && crate::version::version_greater(
                maker.version->0@,
                network.our_version->0@,
            ),
        ),
        listed(after.maker_versions@, version) == listed(before.maker_versions@, version) + one_if(
            version == advertised(maker),
        ),
        fewer.makers@.len() == 0 ==> {
            &&& before.maker_count == 0
            &&& before.makers_with_liquidity == 0
            &&& before.makers_newer_than_ours == 0
            &&& before.maker_versions@.len() == 0
            &&& before.max_maker_version is None
        },
{
    reveal(Seq::filter);
    assert(more.makers@.drop_last() =~= fewer.makers@);
    lemma_listed(before.maker_versions@, fewer.makers@, version);
    lemma_listed(after.maker_versions@, more.makers@, version);
    if fewer.makers@.len() == 0 && before.maker_versions@.len() > 0 {
        assert(before.maker_versions@[0].makers > 0);
    }
}

/// A version is listed once, and only where a maker advertises it.
pub proof fn law_versions_are_listed_once(
    snapshot: Snapshot,
    network: Network,
    now: Timestamp,
    response: StatusResponse,
)
    requires
        call_ensures(StatusResponse::at, (&snapshot, &network, now), response),
    ensures
        forall|i: int, j: int|
            0 <= i < j < response.maker_versions@.len() ==> (
            #[trigger] response.maker_versions@[i]).version@ != (
            #[trigger] response.maker_versions@[j]).version@,
        forall|i: int|
            0 <= i < response.maker_versions@.len() ==> (
            #[trigger] response.maker_versions@[i]).makers > 0,
{
}

/// The newest version is one that a maker advertises, and no maker advertises one that
/// is greater; there is none just where no maker advertises any.
pub proof fn law_the_newest_version(
    snapshot: Snapshot,
    network: Network,
    now: Timestamp,
    response: StatusResponse,
)
    requires
        call_ensures(StatusResponse::at, (&snapshot, &network, now), response),
    ensures
        response.max_maker_version is Some <==> exists|i: int|
            0 <= i < snapshot.makers@.len() && (#[trigger] snapshot.makers@[i]).version is Some,
        response.max_maker_version matches Some(newest) ==> {
            &&& exists|i: int|
                0 <= i < snapshot.makers@.len() && (#[trigger] snapshot.makers@[i]).version is Some
                    && snapshot.makers@[i].version->0@ == newest@
            &&& forall|i: int|
                0 <= i < snapshot.makers@.len() && (#[trigger] snapshot.makers@[i]).version is Some
                    && snapshot.makers@[i].version->0@ != newest@
                    ==> !crate::version::version_greater(
                    snapshot.makers@[i].version->0@,
                    newest@,
                )
        },
{
    let rows = snapshot.makers@;
    if let Some(newest) = response.max_maker_version {
        assert(crate::status::is_newest(rows, Some(newest)));
        let i = choose|i: int|
            0 <= i < rows.len() && crate::address::text_view((#[trigger] rows[i]).version) == Some(
                newest@,
            );
        assert(rows[i].version is Some);
        assert forall|i: int|
            0 <= i < rows.len() && (#[trigger] rows[i]).version is Some && rows[i].version->0@
                != newest@ implies !crate::version::version_greater(
            rows[i].version->0@,
            newest@,
        ) by {
            assert(!crate::status::newer_than(rows[i], newest@));
        }
    }
}

/// The current status is the status of any time but for that time.
pub proof fn law_the_current_status_is_the_status(
    snapshot: Snapshot,
    network: Network,
    now: Timestamp,
    at: StatusResponse,
    current: StatusResponse,
    version: Seq<char>,
)
    requires
        call_ensures(StatusResponse::at, (&snapshot, &network, now), at),
        call_ensures(StatusResponse::current, (&snapshot, &network), current),
    ensures
        current.generated_at.nanos < 1_000_000_000,
        current.ready == at.ready,
        current.our_version == at.our_version,
        current.connected_peers == at.connected_peers,
        current.rendezvous_total == at.rendezvous_total,
        current.rendezvous_connected == at.rendezvous_connected,
        current.discovered_peers == at.discovered_peers,
        current.quotes_received == at.quotes_received,
        current.quotes_not_supported == at.quotes_not_supported,
        current.quotes_failed == at.quotes_failed,
        current.maker_count == at.maker_count,
        current.makers_with_liquidity == at.makers_with_liquidity,
        current.makers_newer_than_ours == at.makers_newer_than_ours,
        listed(current.maker_versions@, version) == listed(at.maker_versions@, version),
        current.max_maker_version is Some <==> at.max_maker_version is Some,
        current.max_maker_version is Some && current.max_maker_version->0@
            != at.max_maker_version->0@ ==> !crate::version::version_greater(
            at.max_maker_version->0@,
            current.max_maker_version->0@,
        ) && !crate::version::version_greater(
            current.max_maker_version->0@,
            at.max_maker_version->0@,
        ),
        current.max_maker_version matches Some(newest) ==> exists|i: int|
            0 <= i < snapshot.makers@.len() && (#[trigger] snapshot.makers@[i]).version is Some
                && snapshot.makers@[i].version->0@ == newest@,
{
    let rows = snapshot.makers@;
    lemma_listed(at.maker_versions@, rows, version);
    lemma_listed(current.maker_versions@, rows, version);
    law_the_newest_version(snapshot, network, now, at);
    assert(crate::status::is_newest(rows, current.max_maker_version));
    if let Some(newest) = current.max_maker_version {
        let i = choose|i: int|
            0 <= i < rows.len() && crate::address::text_view((#[trigger] rows[i]).version) == Some(
                newest@,
            );
        assert(rows[i].version is Some);
        let j = choose|j: int|
            0 <= j < rows.len() && (#[trigger] rows[j]).version is Some && rows[j].version->0@
                == at.max_maker_version->0@;
        assert(!crate::status::newer_than(rows[j], newest@));
    } else {
        if at.max_maker_version is Some {
            let j = choose|j: int| 0 <= j < rows.len() && (#[trigger] rows[j]).version is Some;
            assert(rows[j].version is None);
        }
    }
}

/// The counts of polls and of nodes, each with one entry more and without any.
pub proof fn law_network_counts_grow_one_by_one(
    fewer: &[(PeerId, PollOutcome)],
    more: &[(PeerId, PollOutcome)],
    poll: (PeerId, PollOutcome),
    outcome: PollOutcome,
    polls: (usize, usize),
    nodes: &[PeerId],
    more_nodes: &[PeerId],
    node: PeerId,
    connected: &[PeerId],
    totals: (usize, usize),
    open: (usize, usize),
)
    requires
        more@ == fewer@.push(poll),
        more_nodes@ == nodes@.push(node),
        call_ensures(crate::status::count_polls, (fewer, outcome), polls.0),
        call_ensures(crate::status::count_polls, (more, outcome), polls.1),
        call_ensures(crate::status::count_nodes, (nodes,), totals.0),
        call_ensures(crate::status::count_nodes, (more_nodes,), totals.1),
        call_ensures(crate::status::count_connected, (nodes, connected), open.0),
        call_ensures(crate::status::count_connected, (more_nodes, connected), open.1),
    ensures
        fewer@.len() == 0 ==> polls.0 == 0,
        polls.1 == polls.0 + one_if(poll.1 == outcome),
        nodes@.len() == 0 ==> totals.0 == 0 && open.0 == 0,
        ({
            let new = forall|i: int| 0 <= i < nodes@.len() ==> (#[trigger] nodes@[i])@ != node@;
            let is_open = exists|i: int|
                0 <= i < connected@.len() && (#[trigger] connected@[i])@ == node@;
            &&& totals.1 == totals.0 + one_if(new)
            &&& open.1 == open.0 + one_if(new && is_open)
        }),
{
    reveal(Seq::filter);
    assert(more@.drop_last() =~= fewer@);
    assert(more_nodes@.drop_last() =~= nodes@);
    let once = crate::status::each_once(nodes@);
    assert(once.push(node).drop_last() =~= once);
}

/// What is told of the makers' versions, with one maker more and without any.
pub proof fn law_version_counts_grow_one_by_one(
    fewer: &[MakerQuote],
    more: &[MakerQuote],
    maker: MakerQuote,
    ours: Option<String>,
    version: Seq<char>,
    counts: (Vec<VersionCount>, Vec<VersionCount>),
    newer: (usize, usize),
    newest: Option<String>,
)
    requires
        more@ == fewer@.push(maker),
        call_ensures(crate::status::count_versions, (fewer,), counts.0),
        call_ensures(crate::status::count_versions, (more,), counts.1),
        call_ensures(crate::status::count_newer, (fewer, &ours), newer.0),
        call_ensures(crate::status::count_newer, (more, &ours), newer.1),
        call_ensures(crate::status::newest_version, (more,), newest),
    ensures
        fewer@.len() == 0 ==> counts.0@.len() == 0 && newer.0 == 0,
        listed(counts.1@, version) == listed(counts.0@, version) + one_if(
            version == advertised(maker),
        ),
        newer.1 == newer.0 + one_if(
            ours is Some && maker.version is Some && maker.version->0@ != ours->0@
                && crate::version::version_greater(maker.version->0@, ours->0@),
        ),
        maker.version is Some ==> newest is Some,
        maker.version is Some && maker.version->0@ != newest->0@
            ==> !crate::version::version_greater(maker.version->0@, newest->0@),
{
    reveal(Seq::filter);
    assert(more@.drop_last() =~= fewer@);
    lemma_listed(counts.0@, fewer@, version);
    lemma_listed(counts.1@, more@, version);
    if fewer@.len() == 0 && counts.0@.len() > 0 {
        assert(counts.0@[0].makers > 0);
    }
    assert(more@[fewer@.len() as int] == maker);
    assert(crate::status::is_newest(more@, newest));
    if newest is Some {
        assert(!crate::status::newer_than(more@[fewer@.len() as int], newest->0@));
    }
}

} // verus!
