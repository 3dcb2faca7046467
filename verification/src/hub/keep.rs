//! Selecting rows of the tables of the hub.
use vstd::prelude::*;

use crate::config::{ApprovedClient, NetRecord, PendingClient};
use crate::frame;
use crate::hub::model;
use crate::hub::{DirtyFlag, PendingInfo, PushedRoutes};
use crate::seqs;
use crate::uuids;
use crate::uuids::Uuid;

verus! {

/// The rows that are not members of a network.
pub(crate) fn rows_not_in_net(v: &Vec<ApprovedClient>, n: Uuid) -> (r: Vec<ApprovedClient>)
    ensures
        r.deep_view() == v.deep_view().filter(model::not_in_net(n)),
{
    let ghost all = v.deep_view();
    let mut out: Vec<ApprovedClient> = Vec::new();
    let mut i: usize = 0;
    proof {
        seqs::lemma_filter_start(all, model::not_in_net(n));
    }
    assert(out.deep_view() =~= all.take(0).filter(model::not_in_net(n)));
    while i < v.len()
        invariant
            0 <= i <= v.len(),
            all == v.deep_view(),
            out.deep_view() == all.take(i as int).filter(model::not_in_net(n)),
        decreases v.len() - i,
    {
        let ghost before = out.deep_view();
        proof {
            seqs::lemma_filter_step(all, model::not_in_net(n), i as int);
        }
        if v[i].net_uuid != n {
            out.push(v[i].copy());
            assert(out.deep_view() =~= before.push(all[i as int]));
        }
        i += 1;
    }
    assert(all.take(i as int) =~= all);
    out
}

/// The rows that are members of a network.
pub(crate) fn rows_in_net(v: &Vec<ApprovedClient>, n: Uuid) -> (r: Vec<ApprovedClient>)
    ensures
        r.deep_view() == v.deep_view().filter(model::in_net(n)),
{
    let ghost all = v.deep_view();
    let mut out: Vec<ApprovedClient> = Vec::new();
    let mut i: usize = 0;
    proof {
        seqs::lemma_filter_start(all, model::in_net(n));
    }
    assert(out.deep_view() =~= all.take(0).filter(model::in_net(n)));
    while i < v.len()
        invariant
            0 <= i <= v.len(),
            all == v.deep_view(),
            out.deep_view() == all.take(i as int).filter(model::in_net(n)),
        decreases v.len() - i,
    {
        let ghost before = out.deep_view();
        proof {
            seqs::lemma_filter_step(all, model::in_net(n), i as int);
        }
        if v[i].net_uuid == n {
            out.push(v[i].copy());
            assert(out.deep_view() =~= before.push(all[i as int]));
        }
        i += 1;
    }
    assert(all.take(i as int) =~= all);
    out
}

/// The rows of every client but one.
pub(crate) fn rows_not_of(v: &Vec<ApprovedClient>, c: Uuid) -> (r: Vec<ApprovedClient>)
    ensures
        r.deep_view() == v.deep_view().filter(model::not_of_client(c)),
{
    let ghost all = v.deep_view();
    let mut out: Vec<ApprovedClient> = Vec::new();
    let mut i: usize = 0;
    proof {
        seqs::lemma_filter_start(all, model::not_of_client(c));
    }
    assert(out.deep_view() =~= all.take(0).filter(model::not_of_client(c)));
    while i < v.len()
        invariant
            0 <= i <= v.len(),
            all == v.deep_view(),
            out.deep_view() == all.take(i as int).filter(model::not_of_client(c)),
        decreases v.len() - i,
    {
        let ghost before = out.deep_view();
        proof {
            seqs::lemma_filter_step(all, model::not_of_client(c), i as int);
        }
        if v[i].client_uuid != c {
            out.push(v[i].copy());
            assert(out.deep_view() =~= before.push(all[i as int]));
        }
        i += 1;
    }
    assert(all.take(i as int) =~= all);
    out
}

/// The clients without a network, but not one of them.
pub(crate) fn pool_not_of(v: &Vec<PendingClient>, c: Uuid) -> (r: Vec<PendingClient>)
    ensures
        r.deep_view() == v.deep_view().filter(model::pending_not_of(c)),
{
    let ghost all = v.deep_view();
    let mut out: Vec<PendingClient> = Vec::new();
    let mut i: usize = 0;
    proof {
        seqs::lemma_filter_start(all, model::pending_not_of(c));
    }
    assert(out.deep_view() =~= all.take(0).filter(model::pending_not_of(c)));
    while i < v.len()
        invariant
            0 <= i <= v.len(),
            all == v.deep_view(),
            out.deep_view() == all.take(i as int).filter(model::pending_not_of(c)),
        decreases v.len() - i,
    {
        let ghost before = out.deep_view();
        proof {
            seqs::lemma_filter_step(all, model::pending_not_of(c), i as int);
        }
        if v[i].client_uuid != c {
            out.push(v[i].copy());
            assert(out.deep_view() =~= before.push(all[i as int]));
        }
        i += 1;
    }
    assert(all.take(i as int) =~= all);
    out
}

/// Every network but one.
pub(crate) fn nets_but(v: &Vec<NetRecord>, n: Uuid) -> (r: Vec<NetRecord>)
    ensures
        r.deep_view() == v.deep_view().filter(model::net_is_not(n)),
{
    let ghost all = v.deep_view();
    let mut out: Vec<NetRecord> = Vec::new();
    let mut i: usize = 0;
    proof {
        seqs::lemma_filter_start(all, model::net_is_not(n));
    }
    assert(out.deep_view() =~= all.take(0).filter(model::net_is_not(n)));
    while i < v.len()
        invariant
            0 <= i <= v.len(),
            all == v.deep_view(),
            out.deep_view() == all.take(i as int).filter(model::net_is_not(n)),
        decreases v.len() - i,
    {
        let ghost before = out.deep_view();
        proof {
            seqs::lemma_filter_step(all, model::net_is_not(n), i as int);
        }
        if v[i].uuid != n {
            out.push(v[i].copy());
            assert(out.deep_view() =~= before.push(all[i as int]));
        }
        i += 1;
    }
    assert(all.take(i as int) =~= all);
    out
}

/// What waits in other networks than one.
pub(crate) fn waiting_not_in(v: &Vec<PendingInfo>, n: Uuid) -> (r: Vec<PendingInfo>)
    ensures
        r@ == v@.filter(model::waits_not_in(n)),
{
    let ghost all = v@;
    let mut out: Vec<PendingInfo> = Vec::new();
    let mut i: usize = 0;
    proof {
        seqs::lemma_filter_start(all, model::waits_not_in(n));
    }
    assert(out@ =~= all.take(0).filter(model::waits_not_in(n)));
    while i < v.len()
        invariant
            0 <= i <= v.len(),
            all == v@,
            out@ == all.take(i as int).filter(model::waits_not_in(n)),
        decreases v.len() - i,
    {
        let ghost before = out@;
        proof {
            seqs::lemma_filter_step(all, model::waits_not_in(n), i as int);
        }
        if v[i].net_uuid != n {
            out.push(v[i]);
            assert(out@ =~= before.push(all[i as int]));
        }
        i += 1;
    }
    assert(all.take(i as int) =~= all);
    out
}

/// What waits, but for one client in one network.
pub(crate) fn waiting_not_for(v: &Vec<PendingInfo>, c: Uuid, n: Uuid) -> (r: Vec<PendingInfo>)
    ensures
        r@ == v@.filter(model::waits_not_for(c, n)),
{
    let ghost all = v@;
    let mut out: Vec<PendingInfo> = Vec::new();
    let mut i: usize = 0;
    proof {
        seqs::lemma_filter_start(all, model::waits_not_for(c, n));
    }
    assert(out@ =~= all.take(0).filter(model::waits_not_for(c, n)));
    while i < v.len()
        invariant
            0 <= i <= v.len(),
            all == v@,
            out@ == all.take(i as int).filter(model::waits_not_for(c, n)),
        decreases v.len() - i,
    {
        let ghost before = out@;
        proof {
            seqs::lemma_filter_step(all, model::waits_not_for(c, n), i as int);
        }
        if !(v[i].client_uuid == c && v[i].net_uuid == n) {
            out.push(v[i]);
            assert(out@ =~= before.push(all[i as int]));
        }
        i += 1;
    }
    assert(all.take(i as int) =~= all);
    out
}

/// Every bridge but one.
pub(crate) fn bridges_but(v: &Vec<Uuid>, n: Uuid) -> (r: Vec<Uuid>)
    ensures
        r@ == v@.filter(model::not_bridge_of(n)),
{
    let ghost all = v@;
    let mut out: Vec<Uuid> = Vec::new();
    let mut i: usize = 0;
    proof {
        seqs::lemma_filter_start(all, model::not_bridge_of(n));
    }
    assert(out@ =~= all.take(0).filter(model::not_bridge_of(n)));
    while i < v.len()
        invariant
            0 <= i <= v.len(),
            all == v@,
            out@ == all.take(i as int).filter(model::not_bridge_of(n)),
        decreases v.len() - i,
    {
        let ghost before = out@;
        proof {
            seqs::lemma_filter_step(all, model::not_bridge_of(n), i as int);
        }
        if v[i] != n {
            out.push(v[i]);
            assert(out@ =~= before.push(all[i as int]));
        }
        i += 1;
    }
    assert(all.take(i as int) =~= all);
    out
}

/// The tables that other networks than one were told.
pub(crate) fn pushed_but(v: &Vec<PushedRoutes>, n: Uuid) -> (r: Vec<PushedRoutes>)
    ensures
        r.deep_view() == v.deep_view().filter(model::not_pushed_to(n)),
{
    let ghost all = v.deep_view();
    let mut out: Vec<PushedRoutes> = Vec::new();
    let mut i: usize = 0;
    proof {
        seqs::lemma_filter_start(all, model::not_pushed_to(n));
    }
    assert(out.deep_view() =~= all.take(0).filter(model::not_pushed_to(n)));
    while i < v.len()
        invariant
            0 <= i <= v.len(),
            all == v.deep_view(),
            out.deep_view() == all.take(i as int).filter(model::not_pushed_to(n)),
        decreases v.len() - i,
    {
        let ghost before = out.deep_view();
        proof {
            seqs::lemma_filter_step(all, model::not_pushed_to(n), i as int);
        }
        if v[i].net != n {
            out.push(PushedRoutes { net: v[i].net, routes: frame::copy_routes(&v[i].routes) });
            assert(out.deep_view() =~= before.push(all[i as int]));
        }
        i += 1;
    }
    assert(all.take(i as int) =~= all);
    out
}

/// The flags of other networks than one.
pub(crate) fn flags_but(v: &Vec<DirtyFlag>, n: Uuid) -> (r: Vec<DirtyFlag>)
    ensures
        r@ == v@.filter(model::not_flag_of(n)),
{
    let ghost all = v@;
    let mut out: Vec<DirtyFlag> = Vec::new();
    let mut i: usize = 0;
    proof {
        seqs::lemma_filter_start(all, model::not_flag_of(n));
    }
    assert(out@ =~= all.take(0).filter(model::not_flag_of(n)));
    while i < v.len()
        invariant
            0 <= i <= v.len(),
            all == v@,
            out@ == all.take(i as int).filter(model::not_flag_of(n)),
        decreases v.len() - i,
    {
        let ghost before = out@;
        proof {
            seqs::lemma_filter_step(all, model::not_flag_of(n), i as int);
        }
        if v[i].net != n {
            out.push(v[i]);
            assert(out@ =~= before.push(all[i as int]));
        }
        i += 1;
    }
    assert(all.take(i as int) =~= all);
    out
}

/// The members of a network, or all members.
pub(crate) fn rows_listed(v: &Vec<ApprovedClient>, net: Option<Uuid>) -> (r: Vec<ApprovedClient>)
    ensures
        r.deep_view() == v.deep_view().filter(model::listed(net)),
{
    let ghost all = v.deep_view();
    let mut out: Vec<ApprovedClient> = Vec::new();
    let mut i: usize = 0;
    proof {
        seqs::lemma_filter_start(all, model::listed(net));
    }
    assert(out.deep_view() =~= all.take(0).filter(model::listed(net)));
    while i < v.len()
        invariant
            0 <= i <= v.len(),
            all == v.deep_view(),
            out.deep_view() == all.take(i as int).filter(model::listed(net)),
        decreases v.len() - i,
    {
        let ghost before = out.deep_view();
        proof {
            seqs::lemma_filter_step(all, model::listed(net), i as int);
        }
        if net.is_none() || uuids::same_opt_uuid(net, Some(v[i].net_uuid)) {
            out.push(v[i].copy());
            assert(out.deep_view() =~= before.push(all[i as int]));
        }
        i += 1;
    }
    assert(all.take(i as int) =~= all);
    out
}

} // verus!
