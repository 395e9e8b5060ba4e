//! The `/status` response: whether this build is still in step with the network,
//! and whether it is connected.
use crate::address::PeerId;
use crate::api::{count_liquid, MakerQuote, Snapshot};
use crate::time::{utc_now, Timestamp};
use crate::version::semver_newer;
use vstd::prelude::*;

verus! {

/// What the last poll of a maker came to.
#[derive(Debug, Clone, Copy, PartialEq, Eq, Structural)]
pub enum PollOutcome {
    /// The maker has not answered yet.
    Pending,
    /// A quote came.
    Received,
    /// The peer lacks the quote protocol.
    NotSupported,
    /// The poll failed.
    Failed,
}

/// What the collector knows of its connections.
#[derive(Debug)]
pub struct Network {
    /// The release that this collector is built from, if known.
    pub our_version: Option<String>,
    /// The peers with an open connection.
    pub connected: Vec<PeerId>,
    /// The node of each configured rendezvous address: one that is configured with
    /// several addresses occurs as often.
    pub rendezvous: Vec<PeerId>,
    /// The makers known to the quote poller, each with what its last poll came to.
    pub polls: Vec<(PeerId, PollOutcome)>,
}

/// How many makers advertise a version.
#[derive(Debug, Clone, PartialEq, Eq)]
pub struct VersionCount {
    pub version: String,
    pub makers: usize,
}

/// The `/status` response.
#[derive(Debug, Clone)]
pub struct StatusResponse {
    /// When this status was produced.
    pub generated_at: Timestamp,
    /// At least one quote has been received.
    pub ready: bool,
    /// The release that this collector is built from.
    pub our_version: Option<String>,
    /// Peers with an open connection.
    pub connected_peers: usize,
    /// Configured rendezvous nodes.
    pub rendezvous_total: usize,
    /// Rendezvous nodes that are connected.
    pub rendezvous_connected: usize,
    /// Makers known to the quote poller.
    pub discovered_peers: usize,
    /// Makers whose last poll brought a quote.
    pub quotes_received: usize,
    /// Makers that lack the quote protocol.
    pub quotes_not_supported: usize,
    /// Makers whose last poll failed.
    pub quotes_failed: usize,
    /// Makers in the cache.
    pub maker_count: usize,
    /// Makers in the cache with liquidity.
    pub makers_with_liquidity: usize,
    /// Maker count per advertised version, `unknown` where none is advertised.
    pub maker_versions: Vec<VersionCount>,
    /// The newest advertised maker version.
    pub max_maker_version: Option<String>,
    /// Makers that advertise a newer version than ours.
    pub makers_newer_than_ours: usize,
}

/// The peer is one of `peers`.
pub open spec fn is_among(peers: Seq<PeerId>, peer: PeerId) -> bool {
    exists|i: int| 0 <= i < peers.len() && (#[trigger] peers[i])@ == peer@
}

/// The peers without those that came before: each once, in the order in which they
/// first occur.
pub open spec fn each_once(peers: Seq<PeerId>) -> Seq<PeerId>
    decreases peers.len(),
{
    if peers.len() == 0 {
        Seq::empty()
    } else if is_among(peers.drop_last(), peers.last()) {
        each_once(peers.drop_last())
    } else {
        each_once(peers.drop_last()).push(peers.last())
    }
}

/// The rendezvous nodes that are connected.
pub open spec fn connected_among(nodes: Seq<PeerId>, connected: Seq<PeerId>) -> Seq<PeerId> {
    nodes.filter(|node: PeerId| is_among(connected, node))
}

/// The polls that came to `outcome`.
pub open spec fn polls_with(
    polls: Seq<(PeerId, PollOutcome)>,
    outcome: PollOutcome,
) -> Seq<(PeerId, PollOutcome)> {
    polls.filter(|poll: (PeerId, PollOutcome)| poll.1 == outcome)
}

/// Under what a maker's version is counted.
pub open spec fn version_label(row: MakerQuote) -> Seq<char> {
    match row.version {
        Some(version) => version@,
        None => "unknown"@,
    }
}

/// The makers whose version is counted under `label`.
pub open spec fn makers_labelled(rows: Seq<MakerQuote>, label: Seq<char>) -> Seq<MakerQuote> {
    rows.filter(|row: MakerQuote| version_label(row) == label)
}

/// The counts tell, for each version that a maker is counted under and for no
/// other, how many makers are.
pub open spec fn counts_versions(counts: Seq<VersionCount>, rows: Seq<MakerQuote>) -> bool {
    &&& forall|i: int, j: int|
        0 <= i < j < counts.len() ==> (#[trigger] counts[i]).version@ != (
        #[trigger] counts[j]).version@
    &&& forall|i: int|
        0 <= i < counts.len() ==> 0 < (#[trigger] counts[i]).makers && counts[i].makers
            == makers_labelled(rows, counts[i].version@).len()
    &&& forall|i: int|
        0 <= i < rows.len() ==> is_counted(counts, #[trigger] version_label(rows[i]))
}

/// One of the counts is for `label`.
pub open spec fn is_counted(counts: Seq<VersionCount>, label: Seq<char>) -> bool {
    exists|i: int| 0 <= i < counts.len() && (#[trigger] counts[i]).version@ == label
}

/// The maker advertises a version newer than `version`.
pub open spec fn newer_than(row: MakerQuote, version: Seq<char>) -> bool {
    row.version matches Some(advertised) && crate::version::version_newer(advertised@, version)
}

/// `newest` is a version that a maker advertises, and no maker advertises a newer
/// one; `None` where none advertises any.
pub open spec fn is_newest(rows: Seq<MakerQuote>, newest: Option<String>) -> bool {
    match newest {
        Some(version) => {
            &&& exists|i: int|
                0 <= i < rows.len() && crate::address::text_view((#[trigger] rows[i]).version)
                    == Some(version@)
            &&& forall|i: int| 0 <= i < rows.len() ==> !newer_than(#[trigger] rows[i], version@)
        },
        None => forall|i: int| 0 <= i < rows.len() ==> (#[trigger] rows[i]).version is None,
    }
}

/// The makers that advertise a newer version than ours; none where ours is not
/// known.
pub open spec fn newer_makers(rows: Seq<MakerQuote>, ours: Option<String>) -> Seq<MakerQuote> {
    match ours {
        Some(version) => rows.filter(|row: MakerQuote| newer_than(row, version@)),
        None => Seq::empty(),
    }
}

/// Whether the peer is one of the first `n` of `peers`.
fn find_peer(peers: &[PeerId], n: usize, peer: &PeerId) -> (found: bool)
    requires
        n <= peers@.len(),
    ensures
        found == is_among(peers@.take(n as int), *peer),
{
    let mut i: usize = 0;
    while i < n
        invariant
            i <= n <= peers@.len(),
            forall|j: int| 0 <= j < i ==> (#[trigger] peers@[j])@ != peer@,
        decreases n - i,
    {
        if peers[i].same_as(peer) {
            assert(peers@.take(n as int)[i as int]@ == peer@);
            return true;
        }
        i += 1;
    }
    false
}

/// The number of rendezvous nodes, each counted once.
pub fn count_nodes(nodes: &[PeerId]) -> (count: usize)
    ensures
        count == each_once(nodes@).len(),
{
    let mut count: usize = 0;
    let mut i: usize = 0;
    while i < nodes.len()
        invariant
            i <= nodes@.len(),
            count <= i,
            count == each_once(nodes@.take(i as int)).len(),
        decreases nodes@.len() - i,
    {
        assert(nodes@.take(i + 1).drop_last() =~= nodes@.take(i as int));
        if !find_peer(nodes, i, &nodes[i]) {
            count += 1;
        }
        i += 1;
    }
    assert(nodes@.take(i as int) =~= nodes@);
    count
}

/// The number of rendezvous nodes that are connected, each counted once.
pub fn count_connected(nodes: &[PeerId], connected: &[PeerId]) -> (count: usize)
    ensures
        count == connected_among(each_once(nodes@), connected@).len(),
{
    let mut count: usize = 0;
    let mut i: usize = 0;
    assert(connected@.take(connected@.len() as int) =~= connected@);
    while i < nodes.len()
        invariant
            connected@.take(connected@.len() as int) == connected@,
            i <= nodes@.len(),
            count <= i,
            count == connected_among(each_once(nodes@.take(i as int)), connected@).len(),
        decreases nodes@.len() - i,
    {
        proof {
            reveal(Seq::filter);
            let seen = each_once(nodes@.take(i as int));
            assert(nodes@.take(i + 1).drop_last() =~= nodes@.take(i as int));
            assert(seen.push(nodes@[i as int]).drop_last() =~= seen);
        }
        if !find_peer(nodes, i, &nodes[i]) && find_peer(connected, connected.len(), &nodes[i]) {
            count += 1;
        }
        i += 1;
    }
    assert(nodes@.take(i as int) =~= nodes@);
    count
}

/// The number of polls that came to `outcome`.
pub fn count_polls(polls: &[(PeerId, PollOutcome)], outcome: PollOutcome) -> (count: usize)
    ensures
        count == polls_with(polls@, outcome).len(),
{
    let mut count: usize = 0;
    let mut i: usize = 0;
    while i < polls.len()
        invariant
            i <= polls@.len(),
            count <= i,
            count == polls_with(polls@.take(i as int), outcome).len(),
        decreases polls@.len() - i,
    {
        proof {
            reveal(Seq::filter);
            assert(polls@.take(i + 1).drop_last() =~= polls@.take(i as int));
        }
        if polls[i].1 == outcome {
            count += 1;
        }
        i += 1;
    }
    assert(polls@.take(i as int) =~= polls@);
    count
}

/// Under what a maker's version is counted.
fn label_of(row: &MakerQuote) -> (label: String)
    ensures
        label@ == version_label(*row),
{
    match &row.version {
        Some(version) => version.clone(),
        None => String::from("unknown"),
    }
}

/// The number of makers whose version is counted under `label`.
fn count_label(rows: &[MakerQuote], label: &String) -> (count: usize)
    ensures
        count == makers_labelled(rows@, label@).len(),
{
    let mut count: usize = 0;
    let mut i: usize = 0;
    while i < rows.len()
        invariant
            i <= rows@.len(),
            count <= i,
            count == makers_labelled(rows@.take(i as int), label@).len(),
        decreases rows@.len() - i,
    {
        proof {
            reveal(Seq::filter);
            assert(rows@.take(i + 1).drop_last() =~= rows@.take(i as int));
        }
        let other = label_of(&rows[i]);
        if other == *label {
            count += 1;
        }
        i += 1;
    }
    assert(rows@.take(i as int) =~= rows@);
    count
}

/// Whether one of the counts is for `label`.
fn find_count(counts: &[VersionCount], label: &String) -> (found: bool)
    ensures
        found == is_counted(counts@, label@),
{
    let mut i: usize = 0;
    while i < counts.len()
        invariant
            i <= counts@.len(),
            forall|j: int| 0 <= j < i ==> (#[trigger] counts@[j]).version@ != label@,
        decreases counts@.len() - i,
    {
        if counts[i].version == *label {
            return true;
        }
        i += 1;
    }
    false
}

/// Counts the makers per advertised version.
pub fn count_versions(rows: &[MakerQuote]) -> (counts: Vec<VersionCount>)
    ensures
        counts_versions(counts@, rows@),
{
    let mut counts: Vec<VersionCount> = Vec::new();
    let mut i: usize = 0;
    while i < rows.len()
        invariant
            i <= rows@.len(),
            forall|a: int, b: int|
                0 <= a < b < counts@.len() ==> (#[trigger] counts@[a]).version@ != (
                #[trigger] counts@[b]).version@,
            forall|a: int|
                0 <= a < counts@.len() ==> 0 < (#[trigger] counts@[a]).makers && counts@[a].makers
                    == makers_labelled(rows@, counts@[a].version@).len(),
            forall|a: int| 0 <= a < i ==> is_counted(counts@, #[trigger] version_label(rows@[a])),
        decreases rows@.len() - i,
    {
        let label = label_of(&rows[i]);
        let ghost old_counts = counts@;
        if !find_count(counts.as_slice(), &label) {
            let makers = count_label(rows, &label);
            proof {
                let wanted = |row: MakerQuote| version_label(row) == label@;
                assert(wanted(rows@[i as int]));
                rows@.lemma_filter_contains(wanted, i as int);
            }
            counts.push(VersionCount { version: label, makers });
            assert(counts@[old_counts.len() as int].version@ == version_label(rows@[i as int]));
        }
        proof {
            assert forall|a: int| 0 <= a < i + 1 implies is_counted(
                counts@,
                #[trigger] version_label(rows@[a]),
            ) by {
                if a < i {
                    assert(is_counted(old_counts, version_label(rows@[a])));
                    let k = choose|k: int|
                        0 <= k < old_counts.len() && (#[trigger] old_counts[k]).version@
                            == version_label(rows@[a]);
                    assert(counts@[k] == old_counts[k]);
                }
            }
        }
        i += 1;
    }
    counts
}

/// The newest version that a maker advertises.
pub fn newest_version(rows: &[MakerQuote]) -> (newest: Option<String>)
    ensures
        is_newest(rows@, newest),
{
    let mut newest: Option<String> = None;
    let mut i: usize = 0;
    while i < rows.len()
        invariant
            i <= rows@.len(),
            is_newest(rows@.take(i as int), newest),
        decreases rows@.len() - i,
    {
        let ghost seen = rows@.take(i as int);
        let ghost more = rows@.take(i + 1);
        proof {
            assert(forall|j: int| 0 <= j < i ==> more[j] == #[trigger] seen[j]);
            assert(more[i as int] == rows@[i as int]);
        }
        if let Some(version) = &rows[i].version {
            let replace = match &newest {
                Some(best) => semver_newer(version.as_str(), best.as_str()),
                None => true,
            };
            if replace {
                newest = Some(version.clone());
            }
        }
        i += 1;
    }
    assert(rows@.take(i as int) =~= rows@);
    newest
}

/// The number of makers that advertise a newer version than ours.
pub fn count_newer(rows: &[MakerQuote], ours: &Option<String>) -> (count: usize)
    ensures
        count == newer_makers(rows@, *ours).len(),
{
    let mut count: usize = 0;
    if let Some(version) = ours {
        let mut i: usize = 0;
        while i < rows.len()
            invariant
                *ours == Some(*version),
                i <= rows@.len(),
                count <= i,
                count == newer_makers(rows@.take(i as int), *ours).len(),
            decreases rows@.len() - i,
        {
            proof {
                reveal(Seq::filter);
                assert(rows@.take(i + 1).drop_last() =~= rows@.take(i as int));
            }
            if let Some(advertised) = &rows[i].version {
                if semver_newer(advertised.as_str(), version.as_str()) {
                    count += 1;
                }
            }
            i += 1;
        }
        assert(rows@.take(i as int) =~= rows@);
    }
    count
}

impl StatusResponse {
    /// The response tells how the collector stands.
    pub open spec fn reports(self, snapshot: Snapshot, network: Network) -> bool {
        let rows = snapshot.makers@;
        &&& self.ready == snapshot.ready
        &&& self.our_version == network.our_version
        &&& self.connected_peers == network.connected@.len()
        &&& self.rendezvous_total == each_once(network.rendezvous@).len()
        &&& self.rendezvous_connected == connected_among(
            each_once(network.rendezvous@),
            network.connected@,
        ).len()
        &&& self.discovered_peers == network.polls@.len()
        &&& self.quotes_received == polls_with(network.polls@, PollOutcome::Received).len()
        &&& self.quotes_not_supported == polls_with(
            network.polls@,
            PollOutcome::NotSupported,
        ).len()
        &&& self.quotes_failed == polls_with(network.polls@, PollOutcome::Failed).len()
        &&& self.maker_count == rows.len()
        &&& self.makers_with_liquidity == crate::api::liquid(rows).len()
        &&& counts_versions(self.maker_versions@, rows)
        &&& is_newest(rows, self.max_maker_version)
        &&& self.makers_newer_than_ours == newer_makers(rows, network.our_version).len()
    }

    /// The status as of `now`.
    pub fn at(snapshot: &Snapshot, network: &Network, now: Timestamp) -> (response: Self)
        ensures
            response.generated_at == now,
            response.reports(*snapshot, *network),
    {
        let rows = snapshot.makers.as_slice();
        let polls = network.polls.as_slice();
        StatusResponse {
            generated_at: now,
            ready: snapshot.ready,
            our_version: network.our_version.clone(),
            connected_peers: network.connected.len(),
            rendezvous_total: count_nodes(network.rendezvous.as_slice()),
            rendezvous_connected: count_connected(
                network.rendezvous.as_slice(),
                network.connected.as_slice(),
            ),
            discovered_peers: network.polls.len(),
            quotes_received: count_polls(polls, PollOutcome::Received),
            quotes_not_supported: count_polls(polls, PollOutcome::NotSupported),
            quotes_failed: count_polls(polls, PollOutcome::Failed),
            maker_count: snapshot.makers.len(),
            makers_with_liquidity: count_liquid(rows),
            maker_versions: count_versions(rows),
            max_maker_version: newest_version(rows),
            makers_newer_than_ours: count_newer(rows, &network.our_version),
        }
    }

    /// The current status. When it was produced is the machine's time.
    pub fn current(snapshot: &Snapshot, network: &Network) -> (response: Self)
        ensures
            response.generated_at.well_formed(),
            response.reports(*snapshot, *network),
    {
        StatusResponse::at(snapshot, network, utc_now())
    }
}

/// A rendezvous node is counted once, however many of its addresses are configured:
/// the nodes that are counted differ, and are those that are configured.
pub proof fn law_a_node_counts_once(nodes: Seq<PeerId>)
    ensures
        forall|i: int, j: int|
            0 <= i < j < each_once(nodes).len() ==> (#[trigger] each_once(nodes)[i])@ != (
            #[trigger] each_once(nodes)[j])@,
        forall|peer: PeerId| #[trigger]
            is_among(each_once(nodes), peer) <==> is_among(nodes, peer),
    decreases nodes.len(),
{
    if nodes.len() > 0 {
        let rest = nodes.drop_last();
        law_a_node_counts_once(rest);
        lemma_among_push(rest, nodes.last());
        lemma_among_push(each_once(rest), nodes.last());
        assert(rest.push(nodes.last()) =~= nodes);
        if !is_among(rest, nodes.last()) {
            let once = each_once(rest);
            assert(!is_among(once, nodes.last()));
            assert forall|i: int, j: int|
                0 <= i < j < each_once(nodes).len() implies (#[trigger] each_once(nodes)[i])@ != (
            #[trigger] each_once(nodes)[j])@ by {
                assert(each_once(nodes)[i] == once[i]);
                if j < once.len() {
                    assert(each_once(nodes)[j] == once[j]);
                }
            }
        }
    }
}

/// A peer is among one peer more if it was among them or is that peer.
proof fn lemma_among_push(peers: Seq<PeerId>, last: PeerId)
    ensures
        forall|peer: PeerId| #[trigger]
            is_among(peers.push(last), peer) <==> is_among(peers, peer) || last@ == peer@,
{
    let more = peers.push(last);
    assert forall|peer: PeerId| #[trigger] is_among(more, peer) <==> is_among(peers, peer) || last@
        == peer@ by {
        if is_among(peers, peer) {
            let i = choose|i: int| 0 <= i < peers.len() && (#[trigger] peers[i])@ == peer@;
            assert(more[i]@ == peer@);
        }
        if last@ == peer@ {
            assert(more[peers.len() as int]@ == peer@);
        }
        if is_among(more, peer) {
            let i = choose|i: int| 0 <= i < more.len() && (#[trigger] more[i])@ == peer@;
            if i < peers.len() {
                assert(peers[i]@ == peer@);
            }
        }
    }
}

/// The sum of the counts.
pub open spec fn total_counted(counts: Seq<VersionCount>) -> nat
    decreases counts.len(),
{
    if counts.len() == 0 {
        0
    } else {
        total_counted(counts.drop_last()) + counts.last().makers as nat
    }
}

/// The number of makers whose version is counted under one of the labels.
spec fn sum_labelled(rows: Seq<MakerQuote>, counts: Seq<VersionCount>) -> nat
    decreases counts.len(),
{
    if counts.len() == 0 {
        0
    } else {
        sum_labelled(rows, counts.drop_last()) + makers_labelled(rows, counts.last().version@).len()
    }
}

/// The labels of the counts differ.
spec fn distinct(counts: Seq<VersionCount>) -> bool {
    forall|i: int, j: int|
        0 <= i < j < counts.len() ==> (#[trigger] counts[i]).version@ != (
        #[trigger] counts[j]).version@
}

/// One row more makes one of the counts larger by one, if one is for its label.
proof fn lemma_sum_labelled_step(rows: Seq<MakerQuote>, counts: Seq<VersionCount>)
    requires
        rows.len() > 0,
        distinct(counts),
    ensures
        sum_labelled(rows, counts) == sum_labelled(rows.drop_last(), counts) + if is_counted(
            counts,
            version_label(rows.last()),
        ) {
            1nat
        } else {
            0nat
        },
    decreases counts.len(),
{
    reveal(Seq::filter);
    if counts.len() > 0 {
        let fewer = counts.drop_last();
        let label = version_label(rows.last());
        lemma_sum_labelled_step(rows, fewer);
        if counts.last().version@ == label {
            assert(!is_counted(fewer, label)) by {
                if is_counted(fewer, label) {
                    let i = choose|i: int|
                        0 <= i < fewer.len() && (#[trigger] fewer[i]).version@ == label;
                    assert(counts[i].version@ != counts[counts.len() - 1].version@);
                }
            }
            assert(counts[counts.len() - 1].version@ == label);
        } else {
            if is_counted(fewer, label) {
                let i = choose|i: int|
                    0 <= i < fewer.len() && (#[trigger] fewer[i]).version@ == label;
                assert(counts[i].version@ == label);
            }
            if is_counted(counts, label) {
                let i = choose|i: int|
                    0 <= i < counts.len() && (#[trigger] counts[i]).version@ == label;
                assert(fewer[i].version@ == label);
            }
        }
    }
}

/// Where every label is counted, so is every row.
proof fn lemma_sum_labelled(rows: Seq<MakerQuote>, counts: Seq<VersionCount>)
    requires
        distinct(counts),
        forall|i: int|
            0 <= i < rows.len() ==> is_counted(counts, #[trigger] version_label(rows[i])),
    ensures
        sum_labelled(rows, counts) == rows.len(),
    decreases rows.len(),
{
    if rows.len() == 0 {
        lemma_nothing_labelled(rows, counts);
    } else {
        let less = rows.drop_last();
        assert forall|i: int| 0 <= i < less.len() implies is_counted(
            counts,
            #[trigger] version_label(less[i]),
        ) by {
            assert(less[i] == rows[i]);
        }
        lemma_sum_labelled(less, counts);
        lemma_sum_labelled_step(rows, counts);
        assert(is_counted(counts, version_label(rows[rows.len() - 1])));
    }
}

/// Of no rows, none is counted.
proof fn lemma_nothing_labelled(rows: Seq<MakerQuote>, counts: Seq<VersionCount>)
    requires
        rows.len() == 0,
    ensures
        sum_labelled(rows, counts) == 0,
    decreases counts.len(),
{
    reveal(Seq::filter);
    if counts.len() > 0 {
        lemma_nothing_labelled(rows, counts.drop_last());
    }
}

/// The counts are what `sum_labelled` adds up.
proof fn lemma_total_counted(rows: Seq<MakerQuote>, counts: Seq<VersionCount>)
    requires
        forall|i: int|
            0 <= i < counts.len() ==> (#[trigger] counts[i]).makers == makers_labelled(
                rows,
                counts[i].version@,
            ).len(),
    ensures
        total_counted(counts) == sum_labelled(rows, counts),
    decreases counts.len(),
{
    if counts.len() > 0 {
        let fewer = counts.drop_last();
        assert forall|i: int| 0 <= i < fewer.len() implies (#[trigger] fewer[i]).makers
            == makers_labelled(rows, fewer[i].version@).len() by {
            assert(fewer[i] == counts[i]);
        }
        lemma_total_counted(rows, fewer);
        assert(counts.last() == counts[counts.len() - 1]);
    }
}

/// Every maker is counted under one version, and under one only: the counts per
/// version add up to the number of makers.
pub proof fn law_version_counts_add_up(
    response: StatusResponse,
    snapshot: Snapshot,
    network: Network,
)
    requires
        response.reports(snapshot, network),
    ensures
        total_counted(response.maker_versions@) == response.maker_count,
{
    let rows = snapshot.makers@;
    let counts = response.maker_versions@;
    lemma_total_counted(rows, counts);
    lemma_sum_labelled(rows, counts);
}

/// No maker's poll comes to two outcomes, and no count is larger than what it is
/// taken of.
pub proof fn law_counts_stay_within_their_totals(
    response: StatusResponse,
    snapshot: Snapshot,
    network: Network,
)
    requires
        response.reports(snapshot, network),
    ensures
        response.quotes_received + response.quotes_not_supported + response.quotes_failed
            <= response.discovered_peers,
        response.rendezvous_connected <= response.rendezvous_total,
        response.makers_with_liquidity <= response.maker_count,
        response.makers_newer_than_ours <= response.maker_count,
{
    broadcast use Seq::lemma_filter_len;

    lemma_outcomes_exclude_each_other(network.polls@);
}

/// The three outcomes of a poll exclude each other.
proof fn lemma_outcomes_exclude_each_other(polls: Seq<(PeerId, PollOutcome)>)
    ensures
        polls_with(polls, PollOutcome::Received).len() + polls_with(
            polls,
            PollOutcome::NotSupported,
        ).len() + polls_with(polls, PollOutcome::Failed).len() <= polls.len(),
    decreases polls.len(),
{
    reveal(Seq::filter);
    if polls.len() > 0 {
        lemma_outcomes_exclude_each_other(polls.drop_last());
    }
}

/// Where the newest version that a maker advertises is newer than ours, the makers
/// that are ahead of us are counted: there is at least one.
pub proof fn law_an_outdated_build_is_noticed(
    response: StatusResponse,
    snapshot: Snapshot,
    network: Network,
)
    requires
        response.reports(snapshot, network),
        response.max_maker_version is Some,
        response.our_version is Some,
        crate::version::version_newer(
            response.max_maker_version.unwrap()@,
            response.our_version.unwrap()@,
        ),
    ensures
        response.makers_newer_than_ours > 0,
{
    let rows = snapshot.makers@;
    let newest = response.max_maker_version.unwrap()@;
    let ours = response.our_version.unwrap()@;
    let ahead = |row: MakerQuote| newer_than(row, ours);
    let i = choose|i: int|
        0 <= i < rows.len() && crate::address::text_view((#[trigger] rows[i]).version) == Some(
            newest,
        );
    assert(ahead(rows[i]));
    rows.lemma_filter_contains(ahead, i);
}

/// `/status` and `/orderbook` count the makers of a snapshot alike.
pub proof fn law_status_counts_as_the_orderbook(
    response: StatusResponse,
    orderbook: crate::api::OrderbookResponse,
    snapshot: Snapshot,
    network: Network,
)
    requires
        response.reports(snapshot, network),
        orderbook.summarizes(snapshot),
    ensures
        response.maker_count == orderbook.maker_count,
        response.makers_with_liquidity == orderbook.makers_with_liquidity,
{
}

} // verus!
