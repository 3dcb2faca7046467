//! What bringing an old configuration up to date promises.
use vstd::prelude::*;

use crate::config;
use crate::config::{ApprovedView, BridgeConfigView, NetView, PendingView, ServerConfigView};
use crate::seqs;
use crate::uuids::Uuid;

verus! {

/// Selects the admitted rows of one client.
pub open spec fn admitted_of(c: Uuid) -> spec_fn(ApprovedView) -> bool {
    |a: ApprovedView| a.admitted && a.client_uuid == c
}

/// Extending by the first row of each new client: what was kept stays in
/// front, no client occurs twice, and of a new client the first row is taken.
proof fn lemma_one_per_client(kept: Seq<ApprovedView>, rows: Seq<ApprovedView>, c: Uuid)
    requires
        seqs::distinct(kept, config::row_client()),
    ensures
        seqs::distinct(config::one_per_client(kept, rows), config::row_client()),
        kept.is_prefix_of(config::one_per_client(kept, rows)),
        seqs::first_where(config::one_per_client(kept, rows), config::of_client(c))
            == match seqs::first_where(kept, config::of_client(c)) {
            Some(a) => Some(a),
            None => seqs::first_where(rows, config::of_client(c)),
        },
        forall|i: int|
            kept.len() <= i < config::one_per_client(kept, rows).len() ==> rows.contains(
                #[trigger] config::one_per_client(kept, rows)[i],
            ),
    decreases rows.len(),
{
    if rows.len() > 0 {
        let front = rows.drop_last();
        let x = rows.last();
        let k = config::one_per_client(kept, front);
        let r = config::one_per_client(kept, rows);
        lemma_one_per_client(kept, front, c);
        assert(front.push(x) =~= rows);
        seqs::lemma_position_push(front, config::of_client(c), x);
        seqs::lemma_position_push(k, config::of_client(c), x);
        seqs::lemma_position(k, config::of_client(x.client_uuid));
        if !seqs::some_where(k, config::of_client(x.client_uuid)) {
            assert forall|i: int| 0 <= i < k.len() implies config::row_client()(#[trigger] k[i])
                != config::row_client()(x) by {
                assert(!config::of_client(x.client_uuid)(k[i]));
            }
            seqs::lemma_distinct_push(k, config::row_client(), x);
        }
        assert forall|i: int| kept.len() <= i < r.len() implies rows.contains(#[trigger] r[i]) by {
            if i < k.len() {
                assert(front.contains(k[i]));
                let m = choose|m: int| 0 <= m < front.len() && front[m] == k[i];
                assert(rows[m] == r[i]);
            } else {
                assert(rows[rows.len() - 1] == x);
            }
        }
        if c != x.client_uuid {
        } else if seqs::some_where(k, config::of_client(c)) {
            lemma_one_per_client(kept, front, x.client_uuid);
        }
    }
}

/// After migration no client is a member twice, and none is both a member and
/// without a network. Where the latter are listed once each, every client has
/// one row at most.
pub proof fn law_migration_leaves_one_row_each(c: ServerConfigView)
    ensures
        seqs::distinct(config::migrated(c).approved_clients, config::row_client()),
        seqs::distinct(c.pending_clients, config::pool_client()) ==> config::one_row_each(
            config::migrated(c),
        ),
        forall|i: int, j: int|
            0 <= i < config::migrated(c).approved_clients.len() && 0 <= j < config::migrated(
                c,
            ).pending_clients.len() ==> (
            #[trigger] config::migrated(c).approved_clients[i]).client_uuid != (
            #[trigger] config::migrated(c).pending_clients[j]).client_uuid,
{
    let m = config::migrated(c);
    let rows = c.approved_clients;
    let a = rows.filter(config::is_admitted());
    let n = rows.filter(config::not_admitted());
    let none = Seq::<ApprovedView>::empty();
    let first = config::one_per_client(none, a);
    lemma_one_per_client(none, a, Uuid(0));
    lemma_one_per_client(first, n, Uuid(0));
    let q = config::absent_from(m.approved_clients);
    seqs::lemma_filter_from(c.pending_clients, q);
    assert forall|i: int, j: int|
        0 <= i < m.approved_clients.len() && 0 <= j < m.pending_clients.len() implies (
    #[trigger] m.approved_clients[i]).client_uuid != (
    #[trigger] m.pending_clients[j]).client_uuid by {
        assert(q(m.pending_clients[j]));
        seqs::lemma_position(
            m.approved_clients,
            config::of_client(m.pending_clients[j].client_uuid),
        );
        assert(!config::of_client(m.pending_clients[j].client_uuid)(m.approved_clients[i]));
    }
    if seqs::distinct(c.pending_clients, config::pool_client()) {
        seqs::lemma_distinct_filter(c.pending_clients, config::pool_client(), q);
    }
}

/// Migration keeps the first admitted row of a member, and where it has none,
/// the first row.
pub proof fn law_migration_prefers_admitted_rows(c: ServerConfigView, id: Uuid)
    ensures
        seqs::first_where(config::migrated(c).approved_clients, config::of_client(id))
            == match seqs::first_where(c.approved_clients, admitted_of(id)) {
            Some(a) => Some(a),
            None => seqs::first_where(c.approved_clients, config::of_client(id)),
        },
{
    let rows = c.approved_clients;
    let a = rows.filter(config::is_admitted());
    let n = rows.filter(config::not_admitted());
    let none = Seq::<ApprovedView>::empty();
    let first = config::one_per_client(none, a);
    lemma_one_per_client(none, a, id);
    lemma_one_per_client(first, n, id);
    lemma_split(rows, id);
}

/// A client's first admitted row is its first among the admitted; where it has
/// none, its first row is its first among the others.
proof fn lemma_split(rows: Seq<ApprovedView>, id: Uuid)
    ensures
        seqs::first_where(rows.filter(config::is_admitted()), config::of_client(id))
            == seqs::first_where(rows, admitted_of(id)),
        seqs::first_where(rows, admitted_of(id)) is None ==> seqs::first_where(
            rows.filter(config::not_admitted()),
            config::of_client(id),
        ) == seqs::first_where(rows, config::of_client(id)),
    decreases rows.len(),
{
    reveal(Seq::filter);
    if rows.len() > 0 {
        let front = rows.drop_last();
        let x = rows.last();
        lemma_split(front, id);
        assert(front.push(x) =~= rows);
        seqs::lemma_position_push(front, admitted_of(id), x);
        seqs::lemma_position_push(front, config::of_client(id), x);
        seqs::lemma_position_push(front.filter(config::is_admitted()), config::of_client(id), x);
        seqs::lemma_position_push(front.filter(config::not_admitted()), config::of_client(id), x);
    }
}

/// Migration forgets no client: a member stays one, and who has no network
/// keeps its row, unless it is a member as well.
pub proof fn law_migration_forgets_no_client(c: ServerConfigView, id: Uuid)
    ensures
        seqs::some_where(c.approved_clients, config::of_client(id)) ==> seqs::some_where(
            config::migrated(c).approved_clients,
            config::of_client(id),
        ),
        seqs::some_where(config::migrated(c).approved_clients, config::of_client(id))
            || seqs::first_where(config::migrated(c).pending_clients, config::pending_of(id))
            == seqs::first_where(c.pending_clients, config::pending_of(id)),
{
    law_migration_prefers_admitted_rows(c, id);
    let m = config::migrated(c);
    if !seqs::some_where(m.approved_clients, config::of_client(id)) {
        seqs::lemma_first_filter(
            c.pending_clients,
            config::absent_from(m.approved_clients),
            config::pending_of(id),
        );
    }
}

/// After migration every network has a bridge name; names, identities and
/// bridges that were there before stay.
pub proof fn law_migration_names_every_bridge(c: ServerConfigView, i: int)
    requires
        0 <= i < c.networks.len(),
    ensures
        config::migrated(c).networks.len() == c.networks.len(),
        config::migrated(c).networks[i].bridge_name.len() > 0,
        config::migrated(c).networks[i].uuid == c.networks[i].uuid,
        config::migrated(c).networks[i].name == c.networks[i].name,
        c.networks[i].bridge_name.len() > 0 ==> config::migrated(c).networks[i] == c.networks[i],
{
    config::lemma_bridge_name_fits(c.networks[i].uuid);
}

/// Where no client occurs twice, every row is taken.
proof fn lemma_nothing_to_drop(kept: Seq<ApprovedView>, rows: Seq<ApprovedView>)
    requires
        seqs::distinct(kept + rows, config::row_client()),
    ensures
        config::one_per_client(kept, rows) == kept + rows,
    decreases rows.len(),
{
    if rows.len() > 0 {
        let front = rows.drop_last();
        let x = rows.last();
        let all = kept + rows;
        assert forall|i: int, j: int|
            0 <= i < j < (kept + front).len() implies config::row_client()(
            #[trigger] (kept + front)[i],
        ) != config::row_client()(#[trigger] (kept + front)[j]) by {
            assert(config::row_client()(all[i]) != config::row_client()(all[j]));
        }
        lemma_nothing_to_drop(kept, front);
        let p = config::of_client(x.client_uuid);
        assert forall|i: int| 0 <= i < (kept + front).len() implies !p(
            #[trigger] (kept + front)[i],
        ) by {
            assert(config::row_client()(all[i]) != config::row_client()(all[all.len() - 1]));
        }
        seqs::lemma_position_none(kept + front, p);
        assert((kept + front).push(x) =~= kept + rows);
    } else {
        assert(kept + rows =~= kept);
    }
}

/// A filter that everything passes.
proof fn lemma_filter_all(s: Seq<ApprovedView>, q: spec_fn(ApprovedView) -> bool)
    requires
        forall|i: int| 0 <= i < s.len() ==> q(#[trigger] s[i]),
    ensures
        s.filter(q) == s,
    decreases s.len(),
{
    reveal(Seq::filter);
    if s.len() > 0 {
        let r = s.drop_last();
        assert forall|i: int| 0 <= i < r.len() implies q(#[trigger] r[i]) by {
            assert(q(s[i]));
        }
        lemma_filter_all(r, q);
        assert(q(s[s.len() - 1]));
        assert(r.push(s.last()) =~= s);
    }
}

/// A filter that nothing passes.
proof fn lemma_filter_none(s: Seq<ApprovedView>, q: spec_fn(ApprovedView) -> bool)
    requires
        forall|i: int| 0 <= i < s.len() ==> !q(#[trigger] s[i]),
    ensures
        s.filter(q) == Seq::<ApprovedView>::empty(),
    decreases s.len(),
{
    reveal(Seq::filter);
    if s.len() > 0 {
        let r = s.drop_last();
        assert forall|i: int| 0 <= i < r.len() implies !q(#[trigger] r[i]) by {
            assert(!q(s[i]));
        }
        lemma_filter_none(r, q);
        assert(!q(s[s.len() - 1]));
    }
}

/// Filtering a sequence whose front is admitted and whose rest is not.
proof fn lemma_filter_front(a: Seq<ApprovedView>, n: Seq<ApprovedView>)
    requires
        forall|i: int| 0 <= i < a.len() ==> (#[trigger] a[i]).admitted,
        forall|i: int| 0 <= i < n.len() ==> !(#[trigger] n[i]).admitted,
    ensures
        (a + n).filter(config::is_admitted()) == a,
        (a + n).filter(config::not_admitted()) == n,
{
    Seq::filter_distributes_over_add(a, n, config::is_admitted());
    Seq::filter_distributes_over_add(a, n, config::not_admitted());
    lemma_filter_all(a, config::is_admitted());
    lemma_filter_none(n, config::is_admitted());
    lemma_filter_none(a, config::not_admitted());
    lemma_filter_all(n, config::not_admitted());
    assert(a + Seq::<ApprovedView>::empty() =~= a);
    assert(Seq::<ApprovedView>::empty() + n =~= n);
}

/// Keeping what was kept before.
proof fn lemma_filter_again(s: Seq<PendingView>, q: spec_fn(PendingView) -> bool)
    ensures
        s.filter(q).filter(q) == s.filter(q),
    decreases s.len(),
{
    reveal(Seq::filter);
    if s.len() > 0 {
        let r = s.drop_last();
        lemma_filter_again(r, q);
        if q(s.last()) {
            assert(r.filter(q).push(s.last()).drop_last() =~= r.filter(q));
        }
    }
}

/// The rows that are left: the admitted ones first, no client twice.
proof fn lemma_collapsed_parts(rows: Seq<ApprovedView>) -> (k: int)
    ensures
        0 <= k <= config::collapsed(rows).len(),
        seqs::distinct(config::collapsed(rows), config::row_client()),
        forall|i: int| 0 <= i < k ==> (#[trigger] config::collapsed(rows)[i]).admitted,
        forall|i: int|
            k <= i < config::collapsed(rows).len() ==> !(
            #[trigger] config::collapsed(rows)[i]).admitted,
{
    let r = config::collapsed(rows);
    let a = rows.filter(config::is_admitted());
    let n = rows.filter(config::not_admitted());
    let none = Seq::<ApprovedView>::empty();
    let first = config::one_per_client(none, a);
    lemma_one_per_client(none, a, Uuid(0));
    lemma_one_per_client(first, n, Uuid(0));
    seqs::lemma_filter_from(rows, config::is_admitted());
    seqs::lemma_filter_from(rows, config::not_admitted());
    assert forall|i: int| 0 <= i < first.len() implies (#[trigger] r[i]).admitted by {
        assert(r[i] == first[i]);
        assert(a.contains(first[i]));
        let k = choose|k: int| 0 <= k < a.len() && a[k] == first[i];
        assert(config::is_admitted()(a[k]));
    }
    assert forall|i: int| first.len() <= i < r.len() implies !(#[trigger] r[i]).admitted by {
        assert(n.contains(r[i]));
        let k = choose|k: int| 0 <= k < n.len() && n[k] == r[i];
        assert(config::not_admitted()(n[k]));
    }
    first.len() as int
}

/// Leaving one row per client where there is one changes nothing, where the
/// admitted rows come first.
proof fn lemma_collapsed_same(a: Seq<ApprovedView>, n: Seq<ApprovedView>)
    requires
        seqs::distinct(a + n, config::row_client()),
        forall|i: int| 0 <= i < a.len() ==> (#[trigger] a[i]).admitted,
        forall|i: int| 0 <= i < n.len() ==> !(#[trigger] n[i]).admitted,
    ensures
        config::collapsed(a + n) == a + n,
{
    let none = Seq::<ApprovedView>::empty();
    assert(none + a =~= a);
    assert(seqs::distinct(none + a, config::row_client())) by {
        assert forall|i: int, j: int| 0 <= i < j < a.len() implies config::row_client()(
            #[trigger] a[i],
        ) != config::row_client()(#[trigger] a[j]) by {
            assert(config::row_client()((a + n)[i]) != config::row_client()((a + n)[j]));
        }
    }
    assert(config::one_per_client(none, a) == a) by {
        lemma_nothing_to_drop(none, a);
    }
    assert(config::one_per_client(a, n) == a + n) by {
        lemma_nothing_to_drop(a, n);
    }
    lemma_filter_front(a, n);
}

/// Giving every network its own bridge once is enough: a network with a bridge
/// name keeps every field, afterwards none is without one, and doing it again
/// changes nothing, whatever the old global bridge is by then.
pub proof fn law_naming_bridges_is_idempotent(
    nets: Seq<NetView>,
    legacy: BridgeConfigView,
    later: BridgeConfigView,
)
    ensures
        forall|i: int|
            0 <= i < nets.len() && (#[trigger] nets[i]).bridge_name.len() > 0
                ==> config::named_nets(nets, legacy)[i] == nets[i],
        forall|i: int|
            0 <= i < nets.len() ==> (#[trigger] config::named_nets(
                nets,
                legacy,
            )[i]).bridge_name.len() > 0,
        config::named_nets(config::named_nets(nets, legacy), later) == config::named_nets(
            nets,
            legacy,
        ),
{
    let named = config::named_nets(nets, legacy);
    assert forall|i: int| 0 <= i < nets.len() implies (
    #[trigger] named[i]).bridge_name.len() > 0 by {
        config::lemma_bridge_name_fits(nets[i].uuid);
    }
    assert(config::named_nets(named, later) =~= named);
}

/// Migrating what is up to date changes nothing.
pub proof fn law_migration_is_idempotent(c: ServerConfigView)
    ensures
        config::migrated(config::migrated(c)) == config::migrated(c),
{
    let m = config::migrated(c);
    // Networks.
    assert forall|i: int| 0 <= i < m.networks.len() implies config::named_net(
        m.networks,
        m.bridge,
        i,
    ) == #[trigger] m.networks[i] by {
        law_migration_names_every_bridge(c, i);
    }
    assert(config::named_nets(m.networks, m.bridge) =~= m.networks);
    // Members.
    let k = lemma_collapsed_parts(c.approved_clients);
    let (a, n) = (m.approved_clients.take(k), m.approved_clients.skip(k));
    assert(a + n =~= m.approved_clients);
    lemma_collapsed_same(a, n);
    // Clients without a network.
    lemma_filter_again(c.pending_clients, config::absent_from(m.approved_clients));
}

/// The first network without a bridge takes over the old global bridge and its
/// address, where there is one. Every other without a bridge gets a bridge that
/// is named after it, and keeps its address.
pub proof fn law_old_bridge_goes_to_the_first_network(
    nets: Seq<NetView>,
    legacy: BridgeConfigView,
    i: int,
)
    requires
        0 <= i < nets.len(),
        nets[i].bridge_name.len() == 0,
    ensures
        ({
            let first = forall|j: int|
                0 <= j < i ==> (#[trigger] nets[j]).bridge_name.len() > 0;
            let n = config::named_nets(nets, legacy)[i];
            &&& n.name == nets[i].name && n.uuid == nets[i].uuid
            &&& first && legacy.name.len() > 0 ==> n.bridge_name == legacy.name && n.bridge_ip
                == legacy.ip
            &&& !(first && legacy.name.len() > 0) ==> n.bridge_name == "bf-"@
                + crate::uuids::short_chars(nets[i].uuid) && n.bridge_ip == nets[i].bridge_ip
        }),
{
    let p = config::unnamed_bridge();
    seqs::lemma_position(nets, p);
    if forall|j: int| 0 <= j < i ==> (#[trigger] nets[j]).bridge_name.len() > 0 {
        assert forall|j: int| 0 <= j < i implies !p(#[trigger] nets[j]) by {
            assert(nets[j].bridge_name.len() > 0);
        }
        seqs::lemma_position_is(nets, p, i);
    } else {
        let j = choose|j: int| 0 <= j < i && (#[trigger] nets[j]).bridge_name.len() == 0;
        assert(p(nets[j]));
    }
}

/// Migration leaves the settings of the server as they are.
pub proof fn law_migration_leaves_the_settings(c: ServerConfigView)
    ensures
        config::migrated(c) == (ServerConfigView {
            networks: config::migrated(c).networks,
            approved_clients: config::migrated(c).approved_clients,
            pending_clients: config::migrated(c).pending_clients,
            ..c
        }),
{
}

/// Where every client has one row already, and the admitted ones come first,
/// migration leaves the rows as they are, in their order.
pub proof fn law_migration_keeps_the_order(c: ServerConfigView, k: int)
    requires
        0 <= k <= c.approved_clients.len(),
        seqs::distinct(c.approved_clients, config::row_client()),
        forall|i: int| 0 <= i < k ==> (#[trigger] c.approved_clients[i]).admitted,
        forall|i: int|
            k <= i < c.approved_clients.len() ==> !(#[trigger] c.approved_clients[i]).admitted,
    ensures
        config::migrated(c).approved_clients == c.approved_clients,
{
    let rows = c.approved_clients;
    let a = rows.take(k);
    let n = rows.skip(k);
    assert(a + n =~= rows);
    assert forall|i: int| 0 <= i < a.len() implies (#[trigger] a[i]).admitted by {
        assert(rows[i].admitted);
    }
    assert forall|i: int| 0 <= i < n.len() implies !(#[trigger] n[i]).admitted by {
        assert(!rows[k + i].admitted);
    }
    lemma_collapsed_same(a, n);
}

} // verus!
