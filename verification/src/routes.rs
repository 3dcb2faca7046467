//! Routing tables, derived from the subnets behind each member.
//!
//! For each admitted member of a network with an address, and each subnet
//! behind it, there is a route to the subnet via the member's address. Of two
//! routes to the same destination the first one stays. A subnet that contains
//! the member's own address gives no route.
use vstd::prelude::*;
use vstd::string::*;

use crate::addr;
use crate::addr::{IpAddr, IpNet};
use crate::config::{ApprovedClient, ApprovedView, ServerConfig};
use crate::frame::{RouteEntry, RouteView};
use crate::seqs;
use crate::text;
use crate::uuids::Uuid;

verus! {

/// Selects the routes to one destination.
pub open spec fn to_dst(dst: Seq<char>) -> spec_fn(RouteView) -> bool {
    |r: RouteView| r.dst == dst
}

/// The route that a subnet behind the address `via` gives, if any.
pub open spec fn route_to(via: IpAddr, subnet: Seq<char>) -> Option<RouteView> {
    match addr::net_parsed(subnet) {
        Some(d) => if d.covers(via) {
            None
        } else {
            Some(RouteView { dst: subnet, via: addr::ip_chars(via) })
        },
        None => None,
    }
}

/// `table` with the routes of one member's subnets behind it.
pub open spec fn with_subnets(
    table: Seq<RouteView>,
    via: IpAddr,
    subnets: Seq<Seq<char>>,
) -> Seq<RouteView>
    decreases subnets.len(),
{
    if subnets.len() == 0 {
        table
    } else {
        let t = with_subnets(table, via, subnets.drop_last());
        match route_to(via, subnets.last()) {
            Some(r) => if seqs::some_where(t, to_dst(r.dst)) {
                t
            } else {
                t.push(r)
            },
            None => t,
        }
    }
}

/// The address through which a row contributes to the table of `net`.
pub open spec fn gateway(row: ApprovedView, net: Uuid) -> Option<IpAddr> {
    if row.net_uuid == net && row.admitted {
        match addr::net_parsed(row.tap_ip) {
            Some(t) => Some(t.addr),
            None => None,
        }
    } else {
        None
    }
}

/// The routing table of a network.
pub open spec fn derived(rows: Seq<ApprovedView>, net: Uuid) -> Seq<RouteView>
    decreases rows.len(),
{
    if rows.len() == 0 {
        Seq::empty()
    } else {
        let t = derived(rows.drop_last(), net);
        match gateway(rows.last(), net) {
            Some(via) => with_subnets(t, via, rows.last().lan_subnets),
            None => t,
        }
    }
}

/// Whether every address that leads into the network is an IPv4 address.
pub open spec fn ipv4_gateways(rows: Seq<ApprovedView>, net: Uuid) -> bool {
    forall|i: int|
        0 <= i < rows.len() && #[trigger] gateway(rows[i], net) is Some ==> gateway(
            rows[i],
            net,
        )->0 is V4
}

/// Whether every row of a table is well formed.
pub open spec fn well_formed(table: Seq<RouteView>) -> bool {
    forall|i: int|
        0 <= i < table.len() ==> addr::route_parsed(
            (#[trigger] table[i]).dst,
            table[i].via,
        ) is Ok
}

fn has_route_to(table: &Vec<RouteEntry>, dst: &String) -> (r: bool)
    ensures
        r == seqs::some_where(table.deep_view(), to_dst(dst@)),
{
    let mut i: usize = 0;
    while i < table.len()
        invariant
            0 <= i <= table.len(),
            forall|j: int| 0 <= j < i ==> (#[trigger] table[j]).dst@ != dst@,
        decreases table.len() - i,
    {
        if text::same_text(table[i].dst.as_str(), dst.as_str()) {
            proof {
                seqs::lemma_position_is(table.deep_view(), to_dst(dst@), i as int);
            }
            return true;
        }
        i += 1;
    }
    proof {
        seqs::lemma_position_none(table.deep_view(), to_dst(dst@));
    }
    false
}

fn add_subnets(table: &mut Vec<RouteEntry>, via: IpAddr, subnets: &Vec<String>)
    ensures
        final(table).deep_view() == with_subnets(
            old(table).deep_view(),
            via,
            subnets.deep_view(),
        ),
        well_formed(old(table).deep_view()) && via is V4 ==> well_formed(final(table).deep_view()),
{
    let via_text = via.to_text();
    let ghost start = table.deep_view();
    let ghost all = subnets.deep_view();
    let mut i: usize = 0;
    assert(all.take(0) =~= Seq::<Seq<char>>::empty());
    while i < subnets.len()
        invariant
            0 <= i <= subnets.len(),
            all == subnets.deep_view(),
            via_text@ == addr::ip_chars(via),
            (via is V4) ==> addr::ip_parsed(via_text@) == Some(via),
            table.deep_view() == with_subnets(start, via, all.take(i as int)),
            well_formed(start) && via is V4 ==> well_formed(table.deep_view()),
        decreases subnets.len() - i,
    {
        let subnet = &subnets[i];
        let ghost t = table.deep_view();
        proof {
            assert(all.take(i + 1).drop_last() =~= all.take(i as int));
            assert(all.take(i + 1).last() == subnet@);
        }
        match IpNet::parse(subnet.as_str()) {
            Some(d) => {
                if !d.contains(via) && !has_route_to(table, subnet) {
                    table.push(RouteEntry { dst: subnet.clone(), via: via_text.clone() });
                    assert(table.deep_view() =~= t.push(
                        (RouteView { dst: subnet@, via: via_text@ }),
                    ));
                }
            },
            None => {},
        }
        i += 1;
    }
    assert(all.take(i as int) =~= all);
}

/// Derives the routing table of a network. Where its members have IPv4
/// addresses, every route can be installed.
pub fn derive_routes_for_network(cfg: &ServerConfig, nid: Uuid) -> (r: Vec<RouteEntry>)
    ensures
        r.deep_view() == derived(cfg.deep_view().approved_clients, nid),
        ipv4_gateways(cfg.deep_view().approved_clients, nid) ==> well_formed(r.deep_view()),
{
    derive_routes(&cfg.approved_clients, nid)
}

/// Derives the routing table of a network from the rows of its members.
pub fn derive_routes(members: &Vec<ApprovedClient>, nid: Uuid) -> (r: Vec<RouteEntry>)
    ensures
        r.deep_view() == derived(members.deep_view(), nid),
        ipv4_gateways(members.deep_view(), nid) ==> well_formed(r.deep_view()),
{
    let mut out: Vec<RouteEntry> = Vec::new();
    let ghost rows = members.deep_view();
    let mut i: usize = 0;
    assert(rows.take(0) =~= Seq::<ApprovedView>::empty());
    assert(out.deep_view() =~= Seq::<RouteView>::empty());
    while i < members.len()
        invariant
            0 <= i <= members.len(),
            rows == members.deep_view(),
            out.deep_view() == derived(rows.take(i as int), nid),
            ipv4_gateways(rows, nid) ==> well_formed(out.deep_view()),
        decreases members.len() - i,
    {
        let ac = &members[i];
        proof {
            assert(gateway(rows[i as int], nid) == gateway(ac.deep_view(), nid));
            assert(rows.take(i + 1).drop_last() =~= rows.take(i as int));
            assert(rows.take(i + 1).last() == ac.deep_view());
        }
        if ac.net_uuid == nid && ac.admitted {
            match IpNet::parse(ac.tap_ip.as_str()) {
                Some(t) => {
                    add_subnets(&mut out, t.addr, &ac.lan_subnets);
                },
                None => {},
            }
        }
        i += 1;
    }
    assert(rows.take(i as int) =~= rows);
    out
}

/// The host part of a peer's address, where it has one.
pub open spec fn host_of(ip: Option<Seq<char>>) -> Option<Seq<char>> {
    match ip {
        Some(s) => if text::before(s, '/').len() > 0 {
            Some(text::before(s, '/'))
        } else {
            None
        },
        None => None,
    }
}

/// Selects the routes that do not lead through `host`.
pub open spec fn not_via(host: Option<Seq<char>>) -> spec_fn(RouteView) -> bool {
    |r: RouteView| host != Some(r.via)
}

/// The part of a table that a peer is told: all but the routes through the
/// peer itself.
pub open spec fn for_peer(table: Seq<RouteView>, ip: Option<Seq<char>>) -> Seq<RouteView> {
    table.filter(not_via(host_of(ip)))
}

/// Leaves out the routes that lead through the peer's own address.
pub fn filter_for_peer(routes: &Vec<RouteEntry>, peer_tap_ip: Option<&str>) -> (r: Vec<RouteEntry>)
    ensures
        r.deep_view() == for_peer(
            routes.deep_view(),
            match peer_tap_ip {
                Some(s) => Some(s@),
                None => None,
            },
        ),
{
    let host: Option<&str> = match peer_tap_ip {
        Some(s) => {
            let h = text::text_before(s, '/');
            if h.is_empty() {
                None
            } else {
                Some(h)
            }
        },
        None => None,
    };
    let ghost table = routes.deep_view();
    let ghost p = not_via(
        host_of(
            match peer_tap_ip {
                Some(s) => Some(s@),
                None => None,
            },
        ),
    );
    let mut out: Vec<RouteEntry> = Vec::new();
    let mut i: usize = 0;
    proof {
        seqs::lemma_filter_start(table, p);
        assert(out.deep_view() =~= Seq::<RouteView>::empty());
    }
    while i < routes.len()
        invariant
            0 <= i <= routes.len(),
            table == routes.deep_view(),
            p == not_via(
                match host {
                    Some(h) => Some(h@),
                    None => None,
                },
            ),
            out.deep_view() == table.take(i as int).filter(p),
        decreases routes.len() - i,
    {
        let ghost before = out.deep_view();
        proof {
            seqs::lemma_filter_step(table, p, i as int);
            assert(table[i as int] == routes[i as int].deep_view());
        }
        let keep = match host {
            Some(h) => !text::same_text(routes[i].via.as_str(), h),
            None => true,
        };
        if keep {
            out.push(routes[i].copy());
            assert(out.deep_view() =~= before.push(table[i as int]));
        }
        i += 1;
    }
    assert(table.take(i as int) =~= table);
    out
}

// ── Parsing and comparing tables ─────────────────────────────────────────
/// The rows of a table that are well formed, parsed.
pub open spec fn parse_all(table: Seq<RouteView>) -> Seq<addr::RouteEntry>
    decreases table.len(),
{
    if table.len() == 0 {
        Seq::empty()
    } else {
        let t = parse_all(table.drop_last());
        match addr::route_parsed(table.last().dst, table.last().via) {
            Ok(e) => t.push(e),
            Err(_) => t,
        }
    }
}

/// Parses a table; malformed rows are dropped.
pub fn parse_routes(wire: &Vec<RouteEntry>) -> (r: Vec<addr::RouteEntry>)
    ensures
        r@ == parse_all(wire.deep_view()),
{
    let mut out: Vec<addr::RouteEntry> = Vec::new();
    let ghost table = wire.deep_view();
    let mut i: usize = 0;
    assert(table.take(0) =~= Seq::<RouteView>::empty());
    while i < wire.len()
        invariant
            0 <= i <= wire.len(),
            table == wire.deep_view(),
            out@ == parse_all(table.take(i as int)),
        decreases wire.len() - i,
    {
        proof {
            assert(table.take(i + 1).drop_last() =~= table.take(i as int));
            assert(table.take(i + 1).last() == wire[i as int].deep_view());
        }
        match addr::RouteEntry::parse(wire[i].dst.as_str(), wire[i].via.as_str()) {
            Ok(e) => {
                out.push(e);
            },
            Err(_) => {},
        }
        i += 1;
    }
    assert(table.take(i as int) =~= table);
    out
}

/// Whether two tables hold the same rows, in whatever order.
pub open spec fn same_table(a: Seq<RouteView>, b: Seq<RouteView>) -> bool {
    a.to_multiset() == b.to_multiset()
}

/// Compares two tables without regard to the order of their rows.
pub fn same_routes(a: &Vec<RouteEntry>, b: &Vec<RouteEntry>) -> (r: bool)
    ensures
        r == same_table(a.deep_view(), b.deep_view()),
{
    broadcast use vstd::seq_lib::group_to_multiset_ensures;

    let mut rest = crate::frame::copy_routes(b);
    let ghost ga = a.deep_view();
    let ghost gb = b.deep_view();
    let mut i: usize = 0;
    proof {
        assert(ga.take(0) =~= Seq::<RouteView>::empty());
        ga.take(0).to_multiset_ensures();
        assert(ga.take(0).to_multiset().add(gb.to_multiset()) =~= gb.to_multiset());
    }
    while i < a.len()
        invariant
            0 <= i <= a.len(),
            ga == a.deep_view(),
            gb == b.deep_view(),
            ga.take(i as int).to_multiset().add(rest.deep_view().to_multiset())
                == gb.to_multiset(),
        decreases a.len() - i,
    {
        let ghost x = ga[i as int];
        let ghost gr = rest.deep_view();
        let mut j: usize = 0;
        while j < rest.len() && !(text::same_text(rest[j].dst.as_str(), a[i].dst.as_str())
            && text::same_text(rest[j].via.as_str(), a[i].via.as_str()))
            invariant
                0 <= i < a.len(),
                0 <= j <= rest.len(),
                gr == rest.deep_view(),
                x == a[i as int].deep_view(),
                forall|k: int| 0 <= k < j ==> #[trigger] gr[k] != x,
            decreases rest.len() - j,
        {
            assert(gr[j as int] == rest[j as int].deep_view());
            j += 1;
        }
        proof {
            assert(ga.take(i + 1) =~= ga.take(i as int).push(x));
            vstd::seq_lib::to_multiset_build(ga.take(i as int), x);
        }
        if j == rest.len() {
            proof {
                assert(!gr.contains(x));
                gr.to_multiset_ensures();
                assert(gr.to_multiset().count(x) == 0);
                lemma_take_count(ga, i + 1, x);
                assert(gb.to_multiset().count(x) == ga.take(i as int).to_multiset().count(x));
                assert(ga.take(i + 1).to_multiset().count(x) == ga.take(
                    i as int,
                ).to_multiset().count(x) + 1);
            }
            return false;
        }
        assert(gr[j as int] == rest[j as int].deep_view());
        rest.remove(j);
        proof {
            assert(rest.deep_view() =~= gr.remove(j as int));
            vstd::seq_lib::to_multiset_remove(gr, j as int);
            assert(gr.contains(x));
            gr.to_multiset_ensures();
            assert(ga.take(i + 1).to_multiset().add(rest.deep_view().to_multiset())
                =~= gb.to_multiset());
        }
        i += 1;
    }
    proof {
        assert(ga.take(i as int) =~= ga);
        let gr = rest.deep_view();
        gr.to_multiset_ensures();
        if gr.len() > 0 {
            assert(gr.contains(gr[0]));
            assert(gr.to_multiset().count(gr[0]) > 0);
            assert(gb.to_multiset().count(gr[0]) > ga.to_multiset().count(gr[0]));
        } else {
            assert(gr =~= Seq::<RouteView>::empty());
            assert(ga.to_multiset().add(gr.to_multiset()) =~= ga.to_multiset());
        }
    }
    rest.len() == 0
}

proof fn lemma_take_count(s: Seq<RouteView>, n: int, x: RouteView)
    requires
        0 <= n <= s.len(),
    ensures
        s.take(n).to_multiset().count(x) <= s.to_multiset().count(x),
    decreases s.len() - n,
{
    if n < s.len() {
        lemma_take_count(s, n + 1, x);
        assert(s.take(n + 1) =~= s.take(n).push(s[n]));
        vstd::seq_lib::to_multiset_build(s.take(n), s[n]);
    } else {
        assert(s.take(n) =~= s);
    }
}

// ── Laws ─────────────────────────────────────────────────────────────────
/// No destination occurs twice.
pub open spec fn distinct_dsts(table: Seq<RouteView>) -> bool {
    forall|i: int, j: int|
        0 <= i < j < table.len() ==> (#[trigger] table[i]).dst != (#[trigger] table[j]).dst
}

/// A route that some admitted member of `net` contributes.
pub open spec fn contributed(rows: Seq<ApprovedView>, net: Uuid, r: RouteView) -> bool {
    exists|i: int, k: int|
        0 <= i < rows.len() && 0 <= k < rows[i].lan_subnets.len() && (
        #[trigger] gateway(rows[i], net) matches Some(via) && route_to(
            via,
            #[trigger] rows[i].lan_subnets[k],
        ) == Some(r))
}

/// Whether one of the subnets behind `via` gives the route `r`.
pub open spec fn offers(via: IpAddr, subnets: Seq<Seq<char>>, r: RouteView) -> bool {
    exists|k: int|
        0 <= k < subnets.len() && route_to(via, #[trigger] subnets[k]) == Some(r)
}

proof fn lemma_with_subnets(table: Seq<RouteView>, via: IpAddr, subnets: Seq<Seq<char>>)
    requires
        distinct_dsts(table),
    ensures
        distinct_dsts(with_subnets(table, via, subnets)),
        table.is_prefix_of(with_subnets(table, via, subnets)),
        forall|i: int|
            table.len() <= i < with_subnets(table, via, subnets).len() ==> offers(
                via,
                subnets,
                #[trigger] with_subnets(table, via, subnets)[i],
            ),
        forall|k: int|
            #![trigger subnets[k]]
            0 <= k < subnets.len() && route_to(via, subnets[k]) is Some ==> seqs::some_where(
                with_subnets(table, via, subnets),
                to_dst(subnets[k]),
            ),
    decreases subnets.len(),
{
    if subnets.len() > 0 {
        let front = subnets.drop_last();
        lemma_with_subnets(table, via, front);
        let t = with_subnets(table, via, front);
        let u = with_subnets(table, via, subnets);
        assert forall|i: int| table.len() <= i < t.len() implies offers(
            via,
            subnets,
            #[trigger] t[i],
        ) by {
            let k = choose|k: int|
                0 <= k < front.len() && route_to(via, #[trigger] front[k]) == Some(t[i]);
            assert(front[k] == subnets[k]);
        }
        match route_to(via, subnets.last()) {
            Some(r) => {
                seqs::lemma_position(t, to_dst(r.dst));
                if !seqs::some_where(t, to_dst(r.dst)) {
                    assert(route_to(via, subnets[subnets.len() - 1]) == Some(u[t.len() as int]));
                    assert forall|k: int|
                        #![trigger subnets[k]]
                        0 <= k < subnets.len() && route_to(via, subnets[k]) is Some implies
                        seqs::some_where(u, to_dst(subnets[k])) by {
                        seqs::lemma_position(u, to_dst(subnets[k]));
                        if k < front.len() {
                            assert(front[k] == subnets[k]);
                            seqs::lemma_position(t, to_dst(subnets[k]));
                            let n = seqs::position(t, to_dst(subnets[k]))->0;
                            assert(u[n] == t[n]);
                        } else {
                            assert(u[t.len() as int].dst == subnets[k]);
                        }
                    }
                } else {
                    assert forall|k: int|
                        #![trigger subnets[k]]
                        0 <= k < subnets.len() && route_to(via, subnets[k]) is Some implies
                        seqs::some_where(u, to_dst(subnets[k])) by {
                        if k < front.len() {
                            assert(front[k] == subnets[k]);
                        }
                    }
                }
            },
            None => {
                assert forall|k: int|
                    #![trigger subnets[k]]
                    0 <= k < subnets.len() && route_to(via, subnets[k]) is Some implies
                    seqs::some_where(u, to_dst(subnets[k])) by {
                    if k < front.len() {
                        assert(front[k] == subnets[k]);
                    }
                }
            },
        }
    }
}

proof fn lemma_prefix_keeps_dst(t: Seq<RouteView>, u: Seq<RouteView>, dst: Seq<char>)
    requires
        t.is_prefix_of(u),
        seqs::some_where(t, to_dst(dst)),
    ensures
        seqs::some_where(u, to_dst(dst)),
{
    seqs::lemma_position(t, to_dst(dst));
    seqs::lemma_position(u, to_dst(dst));
    let n = seqs::position(t, to_dst(dst))->0;
    assert(u[n] == t[n]);
}

/// A derived table names no destination twice, and holds nothing but what
/// admitted members contribute: each route leads to a subnet behind an
/// admitted member of the network, via that member's address, and the subnet
/// does not contain that address.
pub proof fn law_derived_routes_are_contributed(rows: Seq<ApprovedView>, net: Uuid)
    ensures
        distinct_dsts(derived(rows, net)),
        forall|i: int|
            0 <= i < derived(rows, net).len() ==> contributed(
                rows,
                net,
                #[trigger] derived(rows, net)[i],
            ),
    decreases rows.len(),
{
    if rows.len() > 0 {
        let front = rows.drop_last();
        law_derived_routes_are_contributed(front, net);
        let t = derived(front, net);
        let u = derived(rows, net);
        assert forall|i: int| 0 <= i < t.len() implies contributed(rows, net, #[trigger] t[i]) by {
            let (a, k) = choose|a: int, k: int|
                0 <= a < front.len() && 0 <= k < front[a].lan_subnets.len() && (
                #[trigger] gateway(front[a], net) matches Some(via) && route_to(
                    via,
                    #[trigger] front[a].lan_subnets[k],
                ) == Some(t[i]));
            assert(front[a] == rows[a]);
            assert(gateway(rows[a], net) is Some);
            assert(route_to(gateway(rows[a], net)->0, rows[a].lan_subnets[k]) == Some(t[i]));
        }
        match gateway(rows.last(), net) {
            Some(via) => {
                let subnets = rows.last().lan_subnets;
                lemma_with_subnets(t, via, subnets);
                assert forall|i: int| 0 <= i < u.len() implies contributed(
                    rows,
                    net,
                    #[trigger] u[i],
                ) by {
                    if i < t.len() {
                        assert(u[i] == t[i]);
                    } else {
                        let k = choose|k: int|
                            0 <= k < subnets.len() && route_to(via, #[trigger] subnets[k]) == Some(
                                u[i],
                            );
                        let a = rows.len() - 1;
                        assert(gateway(rows[a], net) == Some(via));
                        assert(route_to(via, rows[a].lan_subnets[k]) == Some(u[i]));
                    }
                }
            },
            None => {},
        }
    }
}

/// Every subnet behind an admitted member with an address is routed, unless
/// it is malformed or contains that address.
pub proof fn law_contributed_subnets_are_routed(
    rows: Seq<ApprovedView>,
    net: Uuid,
    i: int,
    k: int,
)
    requires
        0 <= i < rows.len(),
        0 <= k < rows[i].lan_subnets.len(),
        gateway(rows[i], net) is Some,
        route_to(gateway(rows[i], net)->0, rows[i].lan_subnets[k]) is Some,
    ensures
        seqs::some_where(derived(rows, net), to_dst(rows[i].lan_subnets[k])),
    decreases rows.len(),
{
    let front = rows.drop_last();
    let t = derived(front, net);
    law_derived_routes_are_contributed(front, net);
    if i < front.len() {
        assert(front[i] == rows[i]);
        law_contributed_subnets_are_routed(front, net, i, k);
        match gateway(rows.last(), net) {
            Some(via) => {
                lemma_with_subnets(t, via, rows.last().lan_subnets);
                lemma_prefix_keeps_dst(t, derived(rows, net), rows[i].lan_subnets[k]);
            },
            None => {},
        }
    } else {
        let via = gateway(rows.last(), net)->0;
        lemma_with_subnets(t, via, rows.last().lan_subnets);
        assert(rows.last().lan_subnets[k] == rows[i].lan_subnets[k]);
    }
}

/// A table derived earlier in the list of members is kept as the start of the
/// table of a longer list: of two members that offer the same destination, the
/// one that stands first serves it.
pub proof fn law_first_member_wins(rows: Seq<ApprovedView>, more: Seq<ApprovedView>, net: Uuid)
    ensures
        derived(rows, net).is_prefix_of(derived(rows + more, net)),
    decreases more.len(),
{
    if more.len() == 0 {
        assert(rows + more =~= rows);
    } else {
        let all = rows + more;
        assert(all.drop_last() =~= rows + more.drop_last());
        law_first_member_wins(rows, more.drop_last(), net);
        let t = derived(all.drop_last(), net);
        law_derived_routes_are_contributed(all.drop_last(), net);
        match gateway(all.last(), net) {
            Some(via) => {
                lemma_with_subnets(t, via, all.last().lan_subnets);
                let a = derived(rows, net);
                let u = derived(all, net);
                assert(a =~= u.subrange(0, a.len() as int)) by {
                    assert(t =~= u.subrange(0, t.len() as int));
                }
            },
            None => {},
        }
    }
}

/// A well-formed table is installed whole, in its order.
pub proof fn law_well_formed_tables_are_installed(table: Seq<RouteView>)
    requires
        well_formed(table),
    ensures
        parse_all(table).len() == table.len(),
        forall|i: int|
            0 <= i < table.len() ==> addr::route_parsed(
                (#[trigger] table[i]).dst,
                table[i].via,
            ) == Ok::<addr::RouteEntry, addr::ParseErrorView>(parse_all(table)[i]),
    decreases table.len(),
{
    if table.len() > 0 {
        let front = table.drop_last();
        assert(well_formed(front)) by {
            assert forall|i: int| 0 <= i < front.len() implies addr::route_parsed(
                (#[trigger] front[i]).dst,
                front[i].via,
            ) is Ok by {
                assert(front[i] == table[i]);
            }
        }
        law_well_formed_tables_are_installed(front);
        assert(addr::route_parsed(table[table.len() - 1].dst, table[table.len() - 1].via) is Ok);
        assert forall|i: int| 0 <= i < table.len() implies addr::route_parsed(
            (#[trigger] table[i]).dst,
            table[i].via,
        ) == Ok::<addr::RouteEntry, addr::ParseErrorView>(parse_all(table)[i]) by {
            if i < front.len() {
                assert(front[i] == table[i]);
            }
        }
    }
}

/// What a peer is told never leads through the peer's own address, and is
/// otherwise the whole table: a route is left out only if it leads there.
pub proof fn law_no_route_loops_back(table: Seq<RouteView>, ip: Option<Seq<char>>)
    ensures
        forall|i: int|
            0 <= i < for_peer(table, ip).len() ==> host_of(ip) != Some(
                (#[trigger] for_peer(table, ip)[i]).via,
            ),
        forall|r: RouteView|
            table.contains(r) && host_of(ip) != Some(r.via) ==> #[trigger] for_peer(
                table,
                ip,
            ).contains(r),
        host_of(ip) is None ==> for_peer(table, ip) == table,
{
    let p = not_via(host_of(ip));
    broadcast use vstd::seq_lib::group_filter_ensures;

    assert forall|i: int| 0 <= i < for_peer(table, ip).len() implies host_of(ip) != Some(
        (#[trigger] for_peer(table, ip)[i]).via,
    ) by {
        assert(p(table.filter(p)[i]));
    }
    assert forall|r: RouteView|
        table.contains(r) && host_of(ip) != Some(r.via) implies #[trigger] for_peer(
        table,
        ip,
    ).contains(r) by {
        let k = choose|k: int| 0 <= k < table.len() && table[k] == r;
        assert(p(table[k]));
        assert(table.filter(p).contains(table[k]));
    }
    if host_of(ip) is None {
        lemma_keep_all(table, p);
    }
}

proof fn lemma_keep_all(table: Seq<RouteView>, p: spec_fn(RouteView) -> bool)
    requires
        forall|r: RouteView| #[trigger] p(r),
    ensures
        table.filter(p) == table,
    decreases table.len(),
{
    reveal(Seq::filter);
    if table.len() > 0 {
        lemma_keep_all(table.drop_last(), p);
        assert(table.drop_last().push(table.last()) =~= table);
    }
}

/// The address through which a row leads to a destination: the row is an
/// admitted member's, its address can be read, the destination is one of its
/// subnets, and a network that does not contain that address.
pub open spec fn leads_to(row: ApprovedView, net: Uuid, dst: Seq<char>) -> Option<Seq<char>> {
    match (addr::net_parsed(row.tap_ip), addr::net_parsed(dst)) {
        (Some(t), Some(d)) => if row.net_uuid == net && row.admitted && row.lan_subnets.contains(
            dst,
        ) && !d.covers(t.addr) {
            Some(addr::ip_chars(t.addr))
        } else {
            None
        },
        _ => None,
    }
}

proof fn lemma_with_subnets_holds(
    table: Seq<RouteView>,
    via: IpAddr,
    subnets: Seq<Seq<char>>,
    r: RouteView,
)
    ensures
        with_subnets(table, via, subnets).contains(r) <==> table.contains(r) || (subnets.contains(
            r.dst,
        ) && !seqs::some_where(table, to_dst(r.dst)) && (addr::net_parsed(r.dst) matches Some(d)
            && !d.covers(via)) && r.via == addr::ip_chars(via)),
        seqs::some_where(with_subnets(table, via, subnets), to_dst(r.dst)) <==> seqs::some_where(
            table,
            to_dst(r.dst),
        ) || (subnets.contains(r.dst) && (addr::net_parsed(r.dst) matches Some(d) && !d.covers(
            via,
        ))),
    decreases subnets.len(),
{
    broadcast use {
        vstd::seq_lib::lemma_seq_contains_after_push,
        vstd::seq_lib::lemma_seq_empty_contains_nothing,
    };

    if subnets.len() > 0 {
        let front = subnets.drop_last();
        let last = subnets.last();
        lemma_with_subnets_holds(table, via, front, r);
        let t = with_subnets(table, via, front);
        assert(front.push(last) =~= subnets);
        match route_to(via, last) {
            Some(q) => {
                seqs::lemma_position_push(t, to_dst(r.dst), q);
                lemma_with_subnets_holds(table, via, front, q);
            },
            None => {},
        }
    } else {
        assert(!subnets.contains(r.dst));
    }
}

/// A network's table holds, for each destination that an admitted member leads
/// to, the route through the first such member, and nothing else.
pub proof fn law_routes_lead_through_the_first_member(
    rows: Seq<ApprovedView>,
    net: Uuid,
    r: RouteView,
)
    ensures
        derived(rows, net).contains(r) <==> exists|i: int|
            0 <= i < rows.len() && #[trigger] leads_to(rows[i], net, r.dst) == Some(r.via)
                && forall|j: int|
                0 <= j < i ==> #[trigger] leads_to(rows[j], net, r.dst) is None,
        seqs::some_where(derived(rows, net), to_dst(r.dst)) <==> exists|i: int|
            0 <= i < rows.len() && #[trigger] leads_to(rows[i], net, r.dst) is Some,
    decreases rows.len(),
{
    if rows.len() > 0 {
        let front = rows.drop_last();
        let last = rows.last();
        let m = rows.len() - 1;
        law_routes_lead_through_the_first_member(front, net, r);
        let t = derived(front, net);
        assert forall|i: int| 0 <= i < front.len() implies front[i] == rows[i] by {}
        assert(rows[m] == last);
        assert(leads_to(rows[m], net, r.dst) == leads_to(last, net, r.dst));
        match gateway(last, net) {
            Some(g) => {
                lemma_with_subnets_holds(t, g, last.lan_subnets, r);
            },
            None => {},
        }
        if exists|i: int| 0 <= i < front.len() && #[trigger] leads_to(front[i], net, r.dst) is Some {
            let i = choose|i: int|
                0 <= i < front.len() && #[trigger] leads_to(front[i], net, r.dst) is Some;
            assert(leads_to(rows[i], net, r.dst) is Some);
        } else {
            assert forall|j: int| 0 <= j < m implies #[trigger] leads_to(rows[j], net, r.dst)
                is None by {
                assert(leads_to(front[j], net, r.dst) is None);
            }
        }
        if t.contains(r) {
            let i = choose|i: int|
                0 <= i < front.len() && #[trigger] leads_to(front[i], net, r.dst) == Some(r.via)
                    && forall|j: int|
                    0 <= j < i ==> #[trigger] leads_to(front[j], net, r.dst) is None;
            assert(leads_to(rows[i], net, r.dst) == Some(r.via));
            assert forall|j: int| 0 <= j < i implies #[trigger] leads_to(rows[j], net, r.dst)
                is None by {
                assert(leads_to(front[j], net, r.dst) is None);
            }
        }
        if exists|i: int|
            0 <= i < rows.len() && #[trigger] leads_to(rows[i], net, r.dst) == Some(r.via)
                && forall|j: int|
                0 <= j < i ==> #[trigger] leads_to(rows[j], net, r.dst) is None {
            let i = choose|i: int|
                0 <= i < rows.len() && #[trigger] leads_to(rows[i], net, r.dst) == Some(r.via)
                    && forall|j: int|
                    0 <= j < i ==> #[trigger] leads_to(rows[j], net, r.dst) is None;
            if i < m {
                assert(leads_to(front[i], net, r.dst) == Some(r.via));
                assert forall|j: int| 0 <= j < i implies #[trigger] leads_to(front[j], net, r.dst)
                    is None by {
                    assert(leads_to(rows[j], net, r.dst) is None);
                }
            } else {
                assert forall|j: int| 0 <= j < front.len() implies #[trigger] leads_to(
                    front[j],
                    net,
                    r.dst,
                ) is None by {
                    assert(leads_to(rows[j], net, r.dst) is None);
                }
            }
        }
        if exists|i: int| 0 <= i < rows.len() && #[trigger] leads_to(rows[i], net, r.dst) is Some {
            let i = choose|i: int|
                0 <= i < rows.len() && #[trigger] leads_to(rows[i], net, r.dst) is Some;
            if i < m {
                assert(leads_to(front[i], net, r.dst) is Some);
            }
        }
    } else {
        assert(!derived(rows, net).contains(r));
    }
}

/// A peer is told every route of the table but those through its own host
/// address, and in the table's order.
pub proof fn law_peers_are_told_the_others_routes(
    table: Seq<RouteView>,
    ip: Option<Seq<char>>,
    r: RouteView,
)
    ensures
        for_peer(table, ip).contains(r) <==> table.contains(r) && !(r.via.len() > 0 && (
        ip matches Some(t) && text::before(t, '/') == r.via)),
        (forall|i: int|
            0 <= i < table.len() ==> !((#[trigger] table[i]).via.len() > 0 && (ip matches Some(t)
                && text::before(t, '/') == table[i].via))) ==> for_peer(table, ip) == table,
{
    let q = not_via(host_of(ip));
    seqs::lemma_filter_from(table, q);
    if for_peer(table, ip).contains(r) {
        let i = choose|i: int|
            0 <= i < for_peer(table, ip).len() && for_peer(table, ip)[i] == r;
        assert(table.contains(table.filter(q)[i]) && q(table.filter(q)[i]));
    }
    if table.contains(r) && q(r) {
        seqs::lemma_filter_keeps(table, q, r);
    }
    if forall|i: int|
        0 <= i < table.len() ==> !((#[trigger] table[i]).via.len() > 0 && (ip matches Some(t)
            && text::before(t, '/') == table[i].via)) {
        assert forall|i: int| 0 <= i < table.len() implies q(#[trigger] table[i]) by {
            assert(!(table[i].via.len() > 0 && (ip matches Some(t) && text::before(t, '/')
                == table[i].via)));
        }
        lemma_nothing_left_out(table, q);
    }
}

proof fn lemma_nothing_left_out(table: Seq<RouteView>, q: spec_fn(RouteView) -> bool)
    requires
        forall|i: int| 0 <= i < table.len() ==> q(#[trigger] table[i]),
    ensures
        table.filter(q) == table,
    decreases table.len(),
{
    reveal(Seq::filter);
    if table.len() > 0 {
        let front = table.drop_last();
        assert forall|i: int| 0 <= i < front.len() implies q(#[trigger] front[i]) by {
            assert(q(table[i]));
        }
        lemma_nothing_left_out(front, q);
        assert(q(table[table.len() - 1]));
        assert(front.push(table.last()) =~= table);
    }
}

/// The routes that are installed are those of the rows that can be read.
pub proof fn law_readable_rows_are_installed(table: Seq<RouteView>, e: addr::RouteEntry)
    ensures
        parse_all(table).contains(e) <==> exists|i: int|
            0 <= i < table.len() && addr::net_parsed((#[trigger] table[i]).dst) == Some(e.dst)
                && addr::ip_parsed(table[i].via) == Some(e.via),
    decreases table.len(),
{
    broadcast use {
        vstd::seq_lib::lemma_seq_contains_after_push,
        vstd::seq_lib::lemma_seq_empty_contains_nothing,
    };

    if table.len() > 0 {
        let front = table.drop_last();
        law_readable_rows_are_installed(front, e);
        assert(table[table.len() - 1] == table.last());
        if parse_all(front).contains(e) {
            let i = choose|i: int|
                0 <= i < front.len() && addr::net_parsed((#[trigger] front[i]).dst) == Some(e.dst)
                    && addr::ip_parsed(front[i].via) == Some(e.via);
            assert(addr::net_parsed(table[i].dst) == Some(e.dst));
        }
        if exists|i: int|
            0 <= i < table.len() && addr::net_parsed((#[trigger] table[i]).dst) == Some(e.dst)
                && addr::ip_parsed(table[i].via) == Some(e.via) {
            let i = choose|i: int|
                0 <= i < table.len() && addr::net_parsed((#[trigger] table[i]).dst) == Some(e.dst)
                    && addr::ip_parsed(table[i].via) == Some(e.via);
            if i < front.len() {
                assert(addr::net_parsed(front[i].dst) == Some(e.dst));
            }
        }
    }
}

/// The routes of one member stand in the order of its subnets: another subnet
/// at the end adds its route at the end, or none.
pub proof fn law_subnets_keep_their_order(
    rows: Seq<ApprovedView>,
    row: ApprovedView,
    subnet: Seq<char>,
    net: Uuid,
)
    ensures
        ({
            let more = ApprovedView { lan_subnets: row.lan_subnets.push(subnet), ..row };
            derived(rows.push(row), net).is_prefix_of(derived(rows.push(more), net))
        }),
{
    let more = ApprovedView { lan_subnets: row.lan_subnets.push(subnet), ..row };
    assert(rows.push(row).drop_last() =~= rows);
    assert(rows.push(more).drop_last() =~= rows);
    assert(row.lan_subnets.push(subnet).drop_last() =~= row.lan_subnets);
}

} // verus!
