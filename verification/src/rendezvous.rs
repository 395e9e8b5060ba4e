//! Which rendezvous nodes the collector goes to.
use crate::address::{Multiaddr, Protocol};
use vstd::prelude::*;

verus! {

/// How connections are made.
#[derive(Debug, PartialEq, Eq)]
pub enum Route {
    /// Over TCP, with names resolved by the system.
    Clearnet,
    /// Over an embedded Tor client.
    Tor,
    /// All of them through the SOCKS5 proxy at `host:port`.
    SocksProxy(String),
}

/// Both Tor and a SOCKS5 proxy were asked for; they exclude each other.
#[derive(Debug, PartialEq, Eq)]
pub struct RouteConflict;

/// The route that the settings `tor` and `socks_proxy` ask for.
pub fn select_route(tor: bool, socks_proxy: Option<String>) -> (route: Result<Route, RouteConflict>)
    ensures
        route is Err <==> tor && socks_proxy is Some,
        route matches Ok(r) ==> r == match socks_proxy {
            Some(proxy) => Route::SocksProxy(proxy),
            None => if tor {
                Route::Tor
            } else {
                Route::Clearnet
            },
        },
{
    match socks_proxy {
        Some(proxy) => if tor {
            Err(RouteConflict)
        } else {
            Ok(Route::SocksProxy(proxy))
        },
        None => if tor {
            Ok(Route::Tor)
        } else {
            Ok(Route::Clearnet)
        },
    }
}

/// An onion service is among the components.
pub open spec fn has_onion(components: Seq<crate::address::ProtocolView>) -> bool {
    exists|i: int| 0 <= i < components.len() && components[i] is Onion3
}

/// The address can be reached by the route: onion services take Tor and all else
/// does without it, while a proxy takes every address.
pub open spec fn usable(route: Route, addr: Multiaddr) -> bool {
    match route {
        Route::Clearnet => !has_onion(addr.components()),
        Route::Tor => has_onion(addr.components()),
        Route::SocksProxy(_) => true,
    }
}

/// The addresses that the route can reach, in order.
pub open spec fn usable_addresses(route: Route, addrs: Seq<Multiaddr>) -> Seq<Multiaddr> {
    addrs.filter(|addr: Multiaddr| usable(route, addr))
}

/// Whether an onion service is among the components.
pub fn any_onion(protocols: &[Protocol]) -> (found: bool)
    ensures
        found == has_onion(crate::address::protocol_views(protocols@)),
{
    let ghost views = crate::address::protocol_views(protocols@);
    let mut i: usize = 0;
    while i < protocols.len()
        invariant
            i <= protocols@.len(),
            views == crate::address::protocol_views(protocols@),
            forall|j: int| 0 <= j < i ==> !(views[j] is Onion3),
        decreases protocols@.len() - i,
    {
        if let Protocol::Onion3 { .. } = &protocols[i] {
            assert(views[i as int] is Onion3);
            return true;
        }
        i += 1;
    }
    false
}

/// Whether `addr` leads to an onion service.
pub fn is_onion(addr: &Multiaddr) -> (found: bool)
    ensures
        found == has_onion(addr.components()),
{
    let protocols = addr.protocols();
    any_onion(protocols.as_slice())
}

/// Returns the rendezvous addresses to use: of those configured, or of the
/// defaults where none are configured, the ones that the route can reach.
pub fn resolve_rendezvous_addresses(
    configured: Vec<Multiaddr>,
    defaults: Vec<Multiaddr>,
    route: &Route,
) -> (resolved: Vec<Multiaddr>)
    ensures
        resolved@ == usable_addresses(
            *route,
            if configured@.len() == 0 {
                defaults@
            } else {
                configured@
            },
        ),
{
    let source = if configured.is_empty() {
        defaults
    } else {
        configured
    };
    let ghost all = source@;
    let mut resolved: Vec<Multiaddr> = Vec::new();
    for addr in it: source
        invariant
            it.seq() == all,
            resolved@ == usable_addresses(*route, all.take(it.index() as int)),
    {
        let keep = match route {
            Route::Clearnet => !is_onion(&addr),
            Route::Tor => is_onion(&addr),
            Route::SocksProxy(_) => true,
        };
        proof {
            let i = it.index() as int;
            assert(all.take(i + 1).drop_last() =~= all.take(i));
            reveal(Seq::filter);
        }
        if keep {
            resolved.push(addr);
        }
    }
    assert(all.take(all.len() as int) =~= all);
    resolved
}

/// What to tell an operator whose addresses the route cannot reach.
pub open spec fn spec_unusable_hint(route: Route) -> Seq<char> {
    match route {
        Route::Clearnet => "Enable --tor to use onion addresses, or provide clearnet addresses via --rendezvous."@,
        _ => "Provide rendezvous addresses via --rendezvous."@,
    }
}

/// What to tell an operator whose addresses the route cannot reach.
pub fn unusable_hint(route: &Route) -> (hint: &'static str)
    ensures
        hint@ == spec_unusable_hint(*route),
{
    match route {
        Route::Clearnet => "Enable --tor to use onion addresses, or provide clearnet addresses via --rendezvous.",
        _ => "Provide rendezvous addresses via --rendezvous.",
    }
}

/// Without a proxy every address belongs to one route and to one only: what
/// clearnet leaves out is what Tor uses, and the other way round. Together they use
/// all addresses, each as often as it is given.
pub proof fn law_clearnet_and_tor_share_the_addresses(addrs: Seq<Multiaddr>)
    ensures
        forall|addr: Multiaddr|
            #[trigger] usable(Route::Clearnet, addr) <==> !usable(Route::Tor, addr),
        usable_addresses(Route::Clearnet, addrs).len() + usable_addresses(Route::Tor, addrs).len()
            == addrs.len(),
        usable_addresses(Route::Clearnet, addrs).to_multiset().add(
            usable_addresses(Route::Tor, addrs).to_multiset(),
        ) == addrs.to_multiset(),
    decreases addrs.len(),
{
    broadcast use vstd::seq_lib::group_to_multiset_ensures;

    reveal(Seq::filter);
    if addrs.len() > 0 {
        law_clearnet_and_tor_share_the_addresses(addrs.drop_last());
        assert(addrs.drop_last().push(addrs.last()) =~= addrs);
    }
}

/// With a proxy all addresses are used.
pub proof fn law_proxy_uses_all_addresses(proxy: String, addrs: Seq<Multiaddr>)
    ensures
        usable_addresses(Route::SocksProxy(proxy), addrs) == addrs,
    decreases addrs.len(),
{
    reveal(Seq::filter);
    if addrs.len() > 0 {
        law_proxy_uses_all_addresses(proxy, addrs.drop_last());
        assert(addrs.drop_last().push(addrs.last()) =~= addrs);
    }
}

} // verus!
