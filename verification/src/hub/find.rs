//! Searching the tables of the hub.
use vstd::prelude::*;

use crate::config::{ApprovedClient, NetRecord};
use crate::hub::model;
use crate::hub::{ConnEntry, Counters, DirtyFlag, PendingInfo, PushedRoutes, SessionInfo};
use crate::ids::{ConnId, SessionId};
use crate::seqs;
use crate::uuids;
use crate::uuids::Uuid;

verus! {

/// Finds a network.
pub(crate) fn find_net(v: &Vec<NetRecord>, n: Uuid) -> (r: Option<usize>)
    ensures
        match r {
            Some(i) => i < v.len() && seqs::position(v.deep_view(), model::net_is(n)) == Some(i as int),
            None => seqs::position(v.deep_view(), model::net_is(n)) is None,
        },
{
    let mut i: usize = 0;
    while i < v.len()
        invariant
            0 <= i <= v.len(),
            forall|j: int| 0 <= j < i ==> !((#[trigger] v[j]).uuid == n),
        decreases v.len() - i,
    {
        if v[i].uuid == n {
            proof {
                seqs::lemma_position_is(v.deep_view(), model::net_is(n), i as int);
            }
            return Some(i);
        }
        i += 1;
    }
    proof {
        seqs::lemma_position_none(v.deep_view(), model::net_is(n));
    }
    None
}

/// Finds the row of a client in a network.
pub(crate) fn find_pair(v: &Vec<ApprovedClient>, c: Uuid, n: Uuid) -> (r: Option<usize>)
    ensures
        match r {
            Some(i) => i < v.len() && seqs::position(v.deep_view(), model::of_pair(c, n)) == Some(i as int),
            None => seqs::position(v.deep_view(), model::of_pair(c, n)) is None,
        },
{
    let mut i: usize = 0;
    while i < v.len()
        invariant
            0 <= i <= v.len(),
            forall|j: int| 0 <= j < i ==> !((#[trigger] v[j]).client_uuid == c && v[j].net_uuid == n),
        decreases v.len() - i,
    {
        if v[i].client_uuid == c && v[i].net_uuid == n {
            proof {
                seqs::lemma_position_is(v.deep_view(), model::of_pair(c, n), i as int);
            }
            return Some(i);
        }
        i += 1;
    }
    proof {
        seqs::lemma_position_none(v.deep_view(), model::of_pair(c, n));
    }
    None
}

/// Finds the first member of a network.
pub(crate) fn find_member(v: &Vec<ApprovedClient>, n: Uuid) -> (r: Option<usize>)
    ensures
        match r {
            Some(i) => i < v.len() && seqs::position(v.deep_view(), model::in_net(n)) == Some(i as int),
            None => seqs::position(v.deep_view(), model::in_net(n)) is None,
        },
{
    let mut i: usize = 0;
    while i < v.len()
        invariant
            0 <= i <= v.len(),
            forall|j: int| 0 <= j < i ==> !((#[trigger] v[j]).net_uuid == n),
        decreases v.len() - i,
    {
        if v[i].net_uuid == n {
            proof {
                seqs::lemma_position_is(v.deep_view(), model::in_net(n), i as int);
            }
            return Some(i);
        }
        i += 1;
    }
    proof {
        seqs::lemma_position_none(v.deep_view(), model::in_net(n));
    }
    None
}

/// Finds a connection.
pub(crate) fn find_conn(v: &Vec<ConnEntry>, id: ConnId) -> (r: Option<usize>)
    ensures
        match r {
            Some(i) => i < v.len() && seqs::position(v.deep_view(), model::conn_is(id)) == Some(i as int),
            None => seqs::position(v.deep_view(), model::conn_is(id)) is None,
        },
{
    let mut i: usize = 0;
    while i < v.len()
        invariant
            0 <= i <= v.len(),
            forall|j: int| 0 <= j < i ==> !((#[trigger] v[j]).id == id),
        decreases v.len() - i,
    {
        if v[i].id == id {
            proof {
                seqs::lemma_position_is(v.deep_view(), model::conn_is(id), i as int);
            }
            return Some(i);
        }
        i += 1;
    }
    proof {
        seqs::lemma_position_none(v.deep_view(), model::conn_is(id));
    }
    None
}

/// Finds a connection of a client.
pub(crate) fn find_conn_of(v: &Vec<ConnEntry>, c: Uuid) -> (r: Option<usize>)
    ensures
        match r {
            Some(i) => i < v.len() && seqs::position(v.deep_view(), model::conn_of(c)) == Some(i as int),
            None => seqs::position(v.deep_view(), model::conn_of(c)) is None,
        },
{
    let mut i: usize = 0;
    while i < v.len()
        invariant
            0 <= i <= v.len(),
            forall|j: int| 0 <= j < i ==> (#[trigger] v[j]).client_uuid != Some(c),
        decreases v.len() - i,
    {
        if uuids::same_opt_uuid(v[i].client_uuid, Some(c)) {
            proof {
                seqs::lemma_position_is(v.deep_view(), model::conn_of(c), i as int);
            }
            return Some(i);
        }
        i += 1;
    }
    proof {
        seqs::lemma_position_none(v.deep_view(), model::conn_of(c));
    }
    None
}

/// Finds the session of a client in a network.
pub(crate) fn find_session(v: &Vec<SessionInfo>, c: Uuid, n: Uuid) -> (r: Option<usize>)
    ensures
        match r {
            Some(i) => i < v.len() && seqs::position(v.deep_view(), model::session_of(c, n)) == Some(i as int),
            None => seqs::position(v.deep_view(), model::session_of(c, n)) is None,
        },
{
    let mut i: usize = 0;
    while i < v.len()
        invariant
            0 <= i <= v.len(),
            forall|j: int| 0 <= j < i ==> !((#[trigger] v[j]).client_uuid == c && v[j].net_uuid == n),
        decreases v.len() - i,
    {
        if v[i].client_uuid == c && v[i].net_uuid == n {
            proof {
                seqs::lemma_position_is(v.deep_view(), model::session_of(c, n), i as int);
            }
            return Some(i);
        }
        i += 1;
    }
    proof {
        seqs::lemma_position_none(v.deep_view(), model::session_of(c, n));
    }
    None
}

/// Finds a session.
pub(crate) fn find_session_id(v: &Vec<SessionInfo>, sid: SessionId) -> (r: Option<usize>)
    ensures
        match r {
            Some(i) => i < v.len() && seqs::position(v.deep_view(), model::session_is(sid)) == Some(i as int),
            None => seqs::position(v.deep_view(), model::session_is(sid)) is None,
        },
{
    let mut i: usize = 0;
    while i < v.len()
        invariant
            0 <= i <= v.len(),
            forall|j: int| 0 <= j < i ==> !((#[trigger] v[j]).sid == sid),
        decreases v.len() - i,
    {
        if v[i].sid == sid {
            proof {
                seqs::lemma_position_is(v.deep_view(), model::session_is(sid), i as int);
            }
            return Some(i);
        }
        i += 1;
    }
    proof {
        seqs::lemma_position_none(v.deep_view(), model::session_is(sid));
    }
    None
}

/// Finds the connection on which a client waits for a network.
pub(crate) fn find_waiting(v: &Vec<PendingInfo>, c: Uuid, n: Uuid) -> (r: Option<usize>)
    ensures
        match r {
            Some(i) => i < v.len() && seqs::position(v@, model::waits_for(c, n)) == Some(i as int),
            None => seqs::position(v@, model::waits_for(c, n)) is None,
        },
{
    let mut i: usize = 0;
    while i < v.len()
        invariant
            0 <= i <= v.len(),
            forall|j: int| 0 <= j < i ==> !((#[trigger] v[j]).client_uuid == c && v[j].net_uuid == n),
        decreases v.len() - i,
    {
        if v[i].client_uuid == c && v[i].net_uuid == n {
            proof {
                seqs::lemma_position_is(v@, model::waits_for(c, n), i as int);
            }
            return Some(i);
        }
        i += 1;
    }
    proof {
        seqs::lemma_position_none(v@, model::waits_for(c, n));
    }
    None
}

/// Finds what a client waits for on a connection.
pub(crate) fn find_waiting_conn(v: &Vec<PendingInfo>, c: Uuid, id: ConnId) -> (r: Option<usize>)
    ensures
        match r {
            Some(i) => i < v.len() && seqs::position(v@, model::waiting_conn(c, id)) == Some(i as int),
            None => seqs::position(v@, model::waiting_conn(c, id)) is None,
        },
{
    let mut i: usize = 0;
    while i < v.len()
        invariant
            0 <= i <= v.len(),
            forall|j: int| 0 <= j < i ==> !((#[trigger] v[j]).client_uuid == c && v[j].conn == id),
        decreases v.len() - i,
    {
        if v[i].client_uuid == c && v[i].conn == id {
            proof {
                seqs::lemma_position_is(v@, model::waiting_conn(c, id), i as int);
            }
            return Some(i);
        }
        i += 1;
    }
    proof {
        seqs::lemma_position_none(v@, model::waiting_conn(c, id));
    }
    None
}

/// Finds the table that a network was told.
pub(crate) fn find_pushed(v: &Vec<PushedRoutes>, n: Uuid) -> (r: Option<usize>)
    ensures
        match r {
            Some(i) => i < v.len() && seqs::position(v.deep_view(), model::pushed_to(n)) == Some(i as int),
            None => seqs::position(v.deep_view(), model::pushed_to(n)) is None,
        },
{
    let mut i: usize = 0;
    while i < v.len()
        invariant
            0 <= i <= v.len(),
            forall|j: int| 0 <= j < i ==> !((#[trigger] v[j]).net == n),
        decreases v.len() - i,
    {
        if v[i].net == n {
            proof {
                seqs::lemma_position_is(v.deep_view(), model::pushed_to(n), i as int);
            }
            return Some(i);
        }
        i += 1;
    }
    proof {
        seqs::lemma_position_none(v.deep_view(), model::pushed_to(n));
    }
    None
}

/// Finds the flag of a network.
pub(crate) fn find_flag(v: &Vec<DirtyFlag>, n: Uuid) -> (r: Option<usize>)
    ensures
        match r {
            Some(i) => i < v.len() && seqs::position(v@, model::flag_of(n)) == Some(i as int),
            None => seqs::position(v@, model::flag_of(n)) is None,
        },
{
    let mut i: usize = 0;
    while i < v.len()
        invariant
            0 <= i <= v.len(),
            forall|j: int| 0 <= j < i ==> !((#[trigger] v[j]).net == n),
        decreases v.len() - i,
    {
        if v[i].net == n {
            proof {
                seqs::lemma_position_is(v@, model::flag_of(n), i as int);
            }
            return Some(i);
        }
        i += 1;
    }
    proof {
        seqs::lemma_position_none(v@, model::flag_of(n));
    }
    None
}

/// Finds the bridge of a network.
pub(crate) fn find_bridge(v: &Vec<Uuid>, n: Uuid) -> (r: Option<usize>)
    ensures
        match r {
            Some(i) => i < v.len() && seqs::position(v@, model::bridge_of(n)) == Some(i as int),
            None => seqs::position(v@, model::bridge_of(n)) is None,
        },
{
    let mut i: usize = 0;
    while i < v.len()
        invariant
            0 <= i <= v.len(),
            forall|j: int| 0 <= j < i ==> (#[trigger] v[j]) != n,
        decreases v.len() - i,
    {
        if v[i] == n {
            proof {
                seqs::lemma_position_is(v@, model::bridge_of(n), i as int);
            }
            return Some(i);
        }
        i += 1;
    }
    proof {
        seqs::lemma_position_none(v@, model::bridge_of(n));
    }
    None
}

/// Finds the counters of a session.
pub(crate) fn find_counters(v: &Vec<Counters>, sid: SessionId) -> (r: Option<usize>)
    ensures
        match r {
            Some(i) => i < v.len() && seqs::position(v@, model::counts_of(sid)) == Some(i as int),
            None => seqs::position(v@, model::counts_of(sid)) is None,
        },
{
    let mut i: usize = 0;
    while i < v.len()
        invariant
            0 <= i <= v.len(),
            forall|j: int| 0 <= j < i ==> !((#[trigger] v[j]).sid == sid),
        decreases v.len() - i,
    {
        if v[i].sid == sid {
            proof {
                seqs::lemma_position_is(v@, model::counts_of(sid), i as int);
            }
            return Some(i);
        }
        i += 1;
    }
    proof {
        seqs::lemma_position_none(v@, model::counts_of(sid));
    }
    None
}

} // verus!
