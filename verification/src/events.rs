//! Events that the hub broadcasts to its subscribers.
use vstd::prelude::*;

use crate::device::{DeviceEntry, DeviceView};
use crate::frame::RouteView;
use crate::uuids::Uuid;

verus! {

/// One sample of a session's byte counters. The rates are the differences to
/// the previous sample, taken once a second.
#[derive(Debug, Clone, Copy, PartialEq, Eq, Structural)]
pub struct MetricsSample {
    pub network: Uuid,
    pub client_uuid: Uuid,
    pub bps_in: u64,
    pub bps_out: u64,
    pub total_in: u64,
    pub total_out: u64,
}

impl DeepView for MetricsSample {
    type V = MetricsSample;

    open spec fn deep_view(&self) -> MetricsSample {
        *self
    }
}

/// One row of a derived routing table.
#[derive(Debug, Clone, PartialEq, Eq)]
pub struct RouteRow {
    pub dst: String,
    pub via: String,
}

impl DeepView for RouteRow {
    type V = RouteView;

    open spec fn deep_view(&self) -> RouteView {
        RouteView { dst: self.dst@, via: self.via@ }
    }
}

/// What happened, and in which network; the nil network stands for none.
#[derive(Debug, Clone, PartialEq, Eq)]
pub enum HubEvent {
    /// The byte counters of every session; never empty.
    MetricsTick { samples: Vec<MetricsSample> },
    /// A session started, or a returning client took its session up again.
    DeviceOnline { network: Uuid, client_uuid: Uuid, sid: u64, tap_name: String },
    /// A session ended, or a waiting client left.
    DeviceOffline { network: Uuid, client_uuid: Uuid },
    /// A client is new, or fell back to having no network.
    DevicePending { network: Uuid, device: DeviceEntry },
    /// A client's row or live state changed.
    DeviceChanged { network: Uuid, device: DeviceEntry },
    /// A client's row is gone.
    DeviceRemoved { network: Uuid, client_uuid: Uuid },
    /// A routing table was derived and pushed to `count` peers.
    RoutesChanged { network: Uuid, routes: Vec<RouteRow>, count: u64 },
    /// The derived table and the pushed one now differ, or agree again.
    RoutesDirty { network: Uuid, dirty: bool },
    NetworkCreated { network: Uuid, name: String },
    NetworkChanged { network: Uuid, name: String },
    NetworkDeleted { network: Uuid },
}

/// The content of a [`HubEvent`].
#[verifier::ext_equal]
pub enum EventView {
    MetricsTick { samples: Seq<MetricsSample> },
    DeviceOnline { network: Uuid, client_uuid: Uuid, sid: u64, tap_name: Seq<char> },
    DeviceOffline { network: Uuid, client_uuid: Uuid },
    DevicePending { network: Uuid, device: DeviceView },
    DeviceChanged { network: Uuid, device: DeviceView },
    DeviceRemoved { network: Uuid, client_uuid: Uuid },
    RoutesChanged { network: Uuid, routes: Seq<RouteView>, count: u64 },
    RoutesDirty { network: Uuid, dirty: bool },
    NetworkCreated { network: Uuid, name: Seq<char> },
    NetworkChanged { network: Uuid, name: Seq<char> },
    NetworkDeleted { network: Uuid },
}

impl DeepView for HubEvent {
    type V = EventView;

    open spec fn deep_view(&self) -> EventView {
        match self {
            HubEvent::MetricsTick { samples } => EventView::MetricsTick {
                samples: samples.deep_view(),
            },
            HubEvent::DeviceOnline { network, client_uuid, sid, tap_name } => EventView::DeviceOnline {
                network: *network,
                client_uuid: *client_uuid,
                sid: *sid,
                tap_name: tap_name@,
            },
            HubEvent::DeviceOffline { network, client_uuid } => EventView::DeviceOffline {
                network: *network,
                client_uuid: *client_uuid,
            },
            HubEvent::DevicePending { network, device } => EventView::DevicePending {
                network: *network,
                device: device.deep_view(),
            },
            HubEvent::DeviceChanged { network, device } => EventView::DeviceChanged {
                network: *network,
                device: device.deep_view(),
            },
            HubEvent::DeviceRemoved { network, client_uuid } => EventView::DeviceRemoved {
                network: *network,
                client_uuid: *client_uuid,
            },
            HubEvent::RoutesChanged { network, routes, count } => EventView::RoutesChanged {
                network: *network,
                routes: routes.deep_view(),
                count: *count,
            },
            HubEvent::RoutesDirty { network, dirty } => EventView::RoutesDirty {
                network: *network,
                dirty: *dirty,
            },
            HubEvent::NetworkCreated { network, name } => EventView::NetworkCreated {
                network: *network,
                name: name@,
            },
            HubEvent::NetworkChanged { network, name } => EventView::NetworkChanged {
                network: *network,
                name: name@,
            },
            HubEvent::NetworkDeleted { network } => EventView::NetworkDeleted { network: *network },
        }
    }
}

} // verus!
