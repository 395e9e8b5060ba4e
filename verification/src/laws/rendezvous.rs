//! Routes and rendezvous addresses.
use crate::address::{Multiaddr, Protocol, ProtocolView};
use crate::rendezvous::{Route, RouteConflict};
use vstd::prelude::*;

verus! {

/// Without a proxy the route is Tor just where that is asked for; a proxy is the route
/// where one is given, and excludes Tor.
pub proof fn law_the_route_is_what_is_asked_for(
    proxy: String,
    plain: Result<Route, RouteConflict>,
    tor: Result<Route, RouteConflict>,
    proxied: Result<Route, RouteConflict>,
    both: Result<Route, RouteConflict>,
)
    requires
        call_ensures(crate::rendezvous::select_route, (false, None), plain),
        call_ensures(crate::rendezvous::select_route, (true, None), tor),
        call_ensures(crate::rendezvous::select_route, (false, Some(proxy)), proxied),
        call_ensures(crate::rendezvous::select_route, (true, Some(proxy)), both),
    ensures
        plain == Ok::<Route, RouteConflict>(Route::Clearnet),
        tor == Ok::<Route, RouteConflict>(Route::Tor),
        proxied == Ok::<Route, RouteConflict>(Route::SocksProxy(proxy)),
        both is Err,
{
}

/// An onion component is noticed wherever it stands, and nothing else is taken for one.
pub proof fn law_an_onion_component_is_noticed_anywhere(protocols: &[Protocol], found: bool)
    requires
        call_ensures(crate::rendezvous::any_onion, (protocols,), found),
    ensures
        found <==> exists|i: int| 0 <= i < protocols@.len() && #[trigger] protocols@[i] is Onion3,
{
    let views = crate::address::protocol_views(protocols@);
    assert(forall|i: int| 0 <= i < protocols@.len() ==> views[i] == (#[trigger] protocols@[i])@);
    if found {
        let i = choose|i: int| 0 <= i < views.len() && views[i] is Onion3;
        assert(protocols@[i] is Onion3);
    }
    if exists|i: int| 0 <= i < protocols@.len() && #[trigger] protocols@[i] is Onion3 {
        let i = choose|i: int| 0 <= i < protocols@.len() && #[trigger] protocols@[i] is Onion3;
        assert(views[i] is Onion3);
    }
}

/// More components before or after, such as `/p2p`, leave an onion address an onion
/// address; without an onion component among them they do not make one.
pub proof fn law_components_around_an_onion_do_not_hide_it(
    inner: &[Protocol],
    outer: &[Protocol],
    at: int,
    found_inner: bool,
    found_outer: bool,
)
    requires
        0 <= at <= at + inner@.len() <= outer@.len(),
        outer@.subrange(at, at + inner@.len()) == inner@,
        call_ensures(crate::rendezvous::any_onion, (inner,), found_inner),
        call_ensures(crate::rendezvous::any_onion, (outer,), found_outer),
    ensures
        found_inner ==> found_outer,
        (forall|i: int|
            0 <= i < outer@.len() && !(at <= i < at + inner@.len()) ==> !(
            #[trigger] outer@[i] is Onion3)) ==> found_inner == found_outer,
{
    law_an_onion_component_is_noticed_anywhere(inner, found_inner);
    law_an_onion_component_is_noticed_anywhere(outer, found_outer);
    assert(forall|i: int| 0 <= i < inner@.len() ==> #[trigger] inner@[i] == outer@[at + i]);
    assert(forall|i: int|
        at <= i < at + inner@.len() ==> #[trigger] outer@[i] == inner@[i - at]);
}

/// The same of an address, told by its components.
pub proof fn law_an_onion_address_has_an_onion_component(
    addr: Multiaddr,
    components: Seq<ProtocolView>,
    found: bool,
)
    requires
        crate::address::multiaddr_protocols(addr@) == Some(components),
        call_ensures(crate::rendezvous::is_onion, (&addr,), found),
    ensures
        found <==> exists|i: int| 0 <= i < components.len() && #[trigger] components[i] is Onion3,
{
}

/// Appending components to an onion address leaves it an onion address.
pub proof fn law_appending_keeps_an_onion_address(
    addr: Multiaddr,
    longer: Multiaddr,
    components: Seq<ProtocolView>,
    appended: Seq<ProtocolView>,
    found: bool,
    found_longer: bool,
)
    requires
        crate::address::multiaddr_protocols(addr@) == Some(components),
        crate::address::multiaddr_protocols(longer@) == Some(components + appended),
        call_ensures(crate::rendezvous::is_onion, (&addr,), found),
        call_ensures(crate::rendezvous::is_onion, (&longer,), found_longer),
    ensures
        found ==> found_longer,
        (forall|i: int| 0 <= i < appended.len() ==> !(#[trigger] appended[i] is Onion3)) ==> found
            == found_longer,
{
    let all = components + appended;
    law_an_onion_address_has_an_onion_component(addr, components, found);
    law_an_onion_address_has_an_onion_component(longer, all, found_longer);
    if found {
        let i = choose|i: int| 0 <= i < components.len() && #[trigger] components[i] is Onion3;
        assert(all[i] is Onion3);
    }
    if found_longer {
        let i = choose|i: int| 0 <= i < all.len() && #[trigger] all[i] is Onion3;
        if i < components.len() {
            assert(components[i] is Onion3);
        } else {
            assert(appended[i - components.len()] is Onion3);
        }
    }
}

/// One configured address more is used if the route reaches it, after the others, and
/// left out if not; of the others nothing changes. Tor reaches just the addresses with
/// an onion component at any place, clearnet just those without, and a proxy all.
pub proof fn law_one_address_more(
    fewer: Vec<Multiaddr>,
    more: Vec<Multiaddr>,
    defaults: Vec<Multiaddr>,
    addr: Multiaddr,
    components: Seq<ProtocolView>,
    route: Route,
    before: Vec<Multiaddr>,
    after: Vec<Multiaddr>,
)
    requires
        fewer@.len() > 0,
        more@ == fewer@.push(addr),
        crate::address::multiaddr_protocols(addr@) == Some(components),
        call_ensures(
            crate::rendezvous::resolve_rendezvous_addresses,
            (fewer, defaults, &route),
            before,
        ),
        call_ensures(
            crate::rendezvous::resolve_rendezvous_addresses,
            (more, defaults, &route),
            after,
        ),
    ensures
        ({
            let onion = exists|i: int|
                0 <= i < components.len() && #[trigger] components[i] is Onion3;
            &&& route is Tor ==> after@ == if onion {
                before@.push(addr)
            } else {
                before@
            }
            &&& route is Clearnet ==> after@ == if onion {
                before@
            } else {
                before@.push(addr)
            }
            &&& route is SocksProxy ==> after@ == before@.push(addr)
        }),
{
    reveal(Seq::filter);
    assert(more@.drop_last() =~= fewer@);
}

/// A single configured address is used just where the route reaches it.
pub proof fn law_a_single_address(
    single: Vec<Multiaddr>,
    defaults: Vec<Multiaddr>,
    components: Seq<ProtocolView>,
    route: Route,
    resolved: Vec<Multiaddr>,
)
    requires
        single@.len() == 1,
        crate::address::multiaddr_protocols(single@[0]@) == Some(components),
        call_ensures(
            crate::rendezvous::resolve_rendezvous_addresses,
            (single, defaults, &route),
            resolved,
        ),
    ensures
        ({
            let onion = exists|i: int|
                0 <= i < components.len() && #[trigger] components[i] is Onion3;
            &&& route is Tor ==> resolved@ == if onion {
                single@
            } else {
                Seq::empty()
            }
            &&& route is Clearnet ==> resolved@ == if onion {
                Seq::empty()
            } else {
                single@
            }
            &&& route is SocksProxy ==> resolved@ == single@
        }),
{
    reveal_with_fuel(Seq::filter, 2);
    reveal(Seq::filter);
    assert(single@.drop_last() =~= Seq::empty());
    assert(Seq::<Multiaddr>::empty().push(single@[0]) =~= single@);
}

/// The defaults stand in where nothing is configured, and only there: they are filtered
/// as if they were configured.
pub proof fn law_defaults_stand_in(
    none: Vec<Multiaddr>,
    some: Vec<Multiaddr>,
    defaults: Vec<Multiaddr>,
    others: Vec<Multiaddr>,
    route: Route,
    by_default: Vec<Multiaddr>,
    as_configured: Vec<Multiaddr>,
    configured: Vec<Multiaddr>,
    configured_again: Vec<Multiaddr>,
)
    requires
        none@.len() == 0,
        some@.len() > 0,
        call_ensures(
            crate::rendezvous::resolve_rendezvous_addresses,
            (none, defaults, &route),
            by_default,
        ),
        call_ensures(
            crate::rendezvous::resolve_rendezvous_addresses,
            (defaults, defaults, &route),
            as_configured,
        ),
        call_ensures(
            crate::rendezvous::resolve_rendezvous_addresses,
            (some, defaults, &route),
            configured,
        ),
        call_ensures(
            crate::rendezvous::resolve_rendezvous_addresses,
            (some, others, &route),
            configured_again,
        ),
    ensures
        by_default@ == as_configured@,
        configured@ == configured_again@,
{
}

/// What comes out of a resolution: only addresses that were configured, all of those
/// that the route reaches, and none that it does not.
pub proof fn law_what_is_resolved(
    configured: Vec<Multiaddr>,
    defaults: Vec<Multiaddr>,
    route: Route,
    resolved: Vec<Multiaddr>,
    addr: Multiaddr,
    components: Seq<ProtocolView>,
)
    requires
        configured@.len() > 0,
        crate::address::multiaddr_protocols(addr@) == Some(components),
        call_ensures(
            crate::rendezvous::resolve_rendezvous_addresses,
            (configured, defaults, &route),
            resolved,
        ),
    ensures
        ({
            let onion = exists|i: int|
                0 <= i < components.len() && #[trigger] components[i] is Onion3;
            resolved@.contains(addr) <==> configured@.contains(addr) && match route {
                Route::Tor => onion,
                Route::Clearnet => !onion,
                Route::SocksProxy(_) => true,
            }
        }),
{
    let reached = |addr: Multiaddr| crate::rendezvous::usable(route, addr);
    assert(resolved@ == configured@.filter(reached));
    if resolved@.contains(addr) {
        let i = choose|i: int| 0 <= i < resolved@.len() && resolved@[i] == addr;
        configured@.lemma_filter_pred(reached, i);
        configured@.lemma_filter_contains_rev(reached, addr);
    }
    if configured@.contains(addr) && reached(addr) {
        let i = choose|i: int| 0 <= i < configured@.len() && configured@[i] == addr;
        configured@.lemma_filter_contains(reached, i);
    }
    assert(reached(addr) == crate::rendezvous::usable(route, addr));
}

/// Operators of a clearnet collector are told to enable Tor or to configure clearnet
/// addresses, all others to configure addresses.
pub proof fn law_hints(
    proxy: String,
    clearnet: &'static str,
    tor: &'static str,
    proxied: &'static str,
)
    requires
        call_ensures(crate::rendezvous::unusable_hint, (&Route::Clearnet,), clearnet),
        call_ensures(crate::rendezvous::unusable_hint, (&Route::Tor,), tor),
        call_ensures(crate::rendezvous::unusable_hint, (&Route::SocksProxy(proxy),), proxied),
    ensures
        clearnet@
            == "Enable --tor to use onion addresses, or provide clearnet addresses via --rendezvous."@,
        tor@ == "Provide rendezvous addresses via --rendezvous."@,
        proxied@ == "Provide rendezvous addresses via --rendezvous."@,
{
}

} // verus!
