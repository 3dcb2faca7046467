//! Configuration of the two daemons, and the upgrades that old server
//! configurations go through.
use vstd::prelude::*;
use vstd::string::*;

use crate::frame::RouteView;
use crate::migration;
use crate::seqs;
use crate::text;
use crate::uuids;
use crate::uuids::Uuid;

verus! {

// ── Server ───────────────────────────────────────────────────────────────
/// Where the daemon's admin socket lives.
#[derive(Debug, Clone, PartialEq, Eq)]
pub struct AdminConfig {
    pub socket: String,
}

/// Where the server listens, and where it puts received files.
#[derive(Debug, Clone, PartialEq, Eq)]
pub struct ServerListen {
    pub host: String,
    pub port: u16,
    pub save_dir: String,
}

/// The bridge of configurations that had only one, and the time in seconds
/// that a session outlives its connection.
#[derive(Debug, Clone, PartialEq, Eq)]
pub struct BridgeConfig {
    pub name: String,
    pub ip: String,
    pub disconnect_timeout: u64,
}

/// The web listener.
#[derive(Debug, Clone, PartialEq, Eq)]
pub struct WebConfig {
    pub enabled: bool,
    pub listen: String,
}

/// The metrics listener.
#[derive(Debug, Clone, PartialEq, Eq)]
pub struct MetricsConfig {
    pub enabled: bool,
    pub listen: String,
}

/// A virtual network and its bridge.
#[derive(Debug, Clone, PartialEq, Eq)]
pub struct NetRecord {
    pub name: String,
    pub uuid: Uuid,
    /// Kernel name of the network's bridge.
    pub bridge_name: String,
    /// Address of the bridge in CIDR form; empty for none.
    pub bridge_ip: String,
}

/// A client that is a member of a network.
#[derive(Debug, Clone, PartialEq, Eq)]
pub struct ApprovedClient {
    pub client_uuid: Uuid,
    pub net_uuid: Uuid,
    /// The client's address in CIDR form; empty for none.
    pub tap_ip: String,
    pub display_name: String,
    /// The subnets that are reachable through the client.
    pub lan_subnets: Vec<String>,
    /// Whether the client may take part, or waits for it.
    pub admitted: bool,
}

/// A client that is known, and a member of no network.
#[derive(Debug, Clone, PartialEq, Eq)]
pub struct PendingClient {
    pub client_uuid: Uuid,
    pub display_name: String,
    pub lan_subnets: Vec<String>,
}

/// The server's configuration.
#[derive(Debug, Clone, PartialEq, Eq)]
pub struct ServerConfig {
    pub server: ServerListen,
    pub bridge: BridgeConfig,
    pub metrics: MetricsConfig,
    pub admin: AdminConfig,
    pub web: WebConfig,
    pub networks: Vec<NetRecord>,
    pub approved_clients: Vec<ApprovedClient>,
    pub pending_clients: Vec<PendingClient>,
}

/// The content of a [`ServerListen`].
#[verifier::ext_equal]
pub struct ServerListenView {
    pub host: Seq<char>,
    pub port: u16,
    pub save_dir: Seq<char>,
}

/// The content of a [`BridgeConfig`].
#[verifier::ext_equal]
pub struct BridgeConfigView {
    pub name: Seq<char>,
    pub ip: Seq<char>,
    pub disconnect_timeout: u64,
}

/// The content of a [`WebConfig`] or a [`MetricsConfig`].
#[verifier::ext_equal]
pub struct ListenerView {
    pub enabled: bool,
    pub listen: Seq<char>,
}

/// The content of a [`NetRecord`].
#[verifier::ext_equal]
pub struct NetView {
    pub name: Seq<char>,
    pub uuid: Uuid,
    pub bridge_name: Seq<char>,
    pub bridge_ip: Seq<char>,
}

/// The content of an [`ApprovedClient`].
#[verifier::ext_equal]
pub struct ApprovedView {
    pub client_uuid: Uuid,
    pub net_uuid: Uuid,
    pub tap_ip: Seq<char>,
    pub display_name: Seq<char>,
    pub lan_subnets: Seq<Seq<char>>,
    pub admitted: bool,
}

/// The content of a [`PendingClient`].
#[verifier::ext_equal]
pub struct PendingView {
    pub client_uuid: Uuid,
    pub display_name: Seq<char>,
    pub lan_subnets: Seq<Seq<char>>,
}

/// The content of a [`ServerConfig`].
#[verifier::ext_equal]
pub struct ServerConfigView {
    pub server: ServerListenView,
    pub bridge: BridgeConfigView,
    pub metrics: ListenerView,
    pub admin: Seq<char>,
    pub web: ListenerView,
    pub networks: Seq<NetView>,
    pub approved_clients: Seq<ApprovedView>,
    pub pending_clients: Seq<PendingView>,
}

impl DeepView for AdminConfig {
    type V = Seq<char>;

    open spec fn deep_view(&self) -> Seq<char> {
        self.socket@
    }
}

impl DeepView for ServerListen {
    type V = ServerListenView;

    open spec fn deep_view(&self) -> ServerListenView {
        ServerListenView { host: self.host@, port: self.port, save_dir: self.save_dir@ }
    }
}

impl DeepView for BridgeConfig {
    type V = BridgeConfigView;

    open spec fn deep_view(&self) -> BridgeConfigView {
        BridgeConfigView {
            name: self.name@,
            ip: self.ip@,
            disconnect_timeout: self.disconnect_timeout,
        }
    }
}

impl DeepView for WebConfig {
    type V = ListenerView;

    open spec fn deep_view(&self) -> ListenerView {
        ListenerView { enabled: self.enabled, listen: self.listen@ }
    }
}

impl DeepView for MetricsConfig {
    type V = ListenerView;

    open spec fn deep_view(&self) -> ListenerView {
        ListenerView { enabled: self.enabled, listen: self.listen@ }
    }
}

impl DeepView for NetRecord {
    type V = NetView;

    open spec fn deep_view(&self) -> NetView {
        NetView {
            name: self.name@,
            uuid: self.uuid,
            bridge_name: self.bridge_name@,
            bridge_ip: self.bridge_ip@,
        }
    }
}

impl DeepView for ApprovedClient {
    type V = ApprovedView;

    open spec fn deep_view(&self) -> ApprovedView {
        ApprovedView {
            client_uuid: self.client_uuid,
            net_uuid: self.net_uuid,
            tap_ip: self.tap_ip@,
            display_name: self.display_name@,
            lan_subnets: self.lan_subnets.deep_view(),
            admitted: self.admitted,
        }
    }
}

impl DeepView for PendingClient {
    type V = PendingView;

    open spec fn deep_view(&self) -> PendingView {
        PendingView {
            client_uuid: self.client_uuid,
            display_name: self.display_name@,
            lan_subnets: self.lan_subnets.deep_view(),
        }
    }
}

impl DeepView for ServerConfig {
    type V = ServerConfigView;

    open spec fn deep_view(&self) -> ServerConfigView {
        ServerConfigView {
            server: self.server.deep_view(),
            bridge: self.bridge.deep_view(),
            metrics: self.metrics.deep_view(),
            admin: self.admin.deep_view(),
            web: self.web.deep_view(),
            networks: self.networks.deep_view(),
            approved_clients: self.approved_clients.deep_view(),
            pending_clients: self.pending_clients.deep_view(),
        }
    }
}

impl NetRecord {
    /// A copy of this record.
    pub fn copy(&self) -> (r: NetRecord)
        ensures
            r.deep_view() == self.deep_view(),
    {
        NetRecord {
            name: self.name.clone(),
            uuid: self.uuid,
            bridge_name: self.bridge_name.clone(),
            bridge_ip: self.bridge_ip.clone(),
        }
    }
}

impl ApprovedClient {
    /// A copy of this row.
    pub fn copy(&self) -> (r: ApprovedClient)
        ensures
            r.deep_view() == self.deep_view(),
    {
        ApprovedClient {
            client_uuid: self.client_uuid,
            net_uuid: self.net_uuid,
            tap_ip: self.tap_ip.clone(),
            display_name: self.display_name.clone(),
            lan_subnets: text::copy_texts(&self.lan_subnets),
            admitted: self.admitted,
        }
    }
}

impl PendingClient {
    /// A copy of this row.
    pub fn copy(&self) -> (r: PendingClient)
        ensures
            r.deep_view() == self.deep_view(),
    {
        PendingClient {
            client_uuid: self.client_uuid,
            display_name: self.display_name.clone(),
            lan_subnets: text::copy_texts(&self.lan_subnets),
        }
    }
}

/// A copy of some member rows.
pub fn copy_rows(v: &Vec<ApprovedClient>) -> (r: Vec<ApprovedClient>)
    ensures
        r.deep_view() == v.deep_view(),
{
    let mut out: Vec<ApprovedClient> = Vec::new();
    let mut i: usize = 0;
    while i < v.len()
        invariant
            0 <= i <= v.len(),
            out.len() == i,
            forall|j: int| 0 <= j < i ==> (#[trigger] out[j]).deep_view() == v[j].deep_view(),
        decreases v.len() - i,
    {
        out.push(v[i].copy());
        i += 1;
    }
    assert(out.deep_view() =~= v.deep_view());
    out
}

/// A copy of a list of networks.
pub fn copy_nets(v: &Vec<NetRecord>) -> (r: Vec<NetRecord>)
    ensures
        r.deep_view() == v.deep_view(),
{
    let mut out: Vec<NetRecord> = Vec::new();
    let mut i: usize = 0;
    while i < v.len()
        invariant
            0 <= i <= v.len(),
            out.len() == i,
            forall|j: int| 0 <= j < i ==> (#[trigger] out[j]).deep_view() == v[j].deep_view(),
        decreases v.len() - i,
    {
        out.push(v[i].copy());
        i += 1;
    }
    assert(out.deep_view() =~= v.deep_view());
    out
}

// ── Defaults ─────────────────────────────────────────────────────────────
fn default_server_admin() -> (r: AdminConfig)
    ensures
        r.deep_view() == "/tmp/bifrost-server.sock"@,
{
    AdminConfig { socket: "/tmp/bifrost-server.sock".to_owned() }
}

fn default_client_admin() -> (r: AdminConfig)
    ensures
        r.deep_view() == "/tmp/bifrost-client.sock"@,
{
    AdminConfig { socket: "/tmp/bifrost-client.sock".to_owned() }
}

/// Rows written before admission existed count as admitted.
pub fn default_admitted() -> (r: bool)
    ensures
        r,
{
    true
}

/// The default listening address.
pub open spec fn default_listen() -> ServerListenView {
    ServerListenView { host: "0.0.0.0"@, port: 8888, save_dir: "./received"@ }
}

/// The default bridge.
pub open spec fn default_bridge() -> BridgeConfigView {
    BridgeConfigView { name: "br0"@, ip: Seq::empty(), disconnect_timeout: 60 }
}

/// The default web listener: on, for this host only.
pub open spec fn default_web() -> ListenerView {
    ListenerView { enabled: true, listen: "127.0.0.1:8080"@ }
}

/// The default metrics listener: off.
pub open spec fn default_metrics() -> ListenerView {
    ListenerView { enabled: false, listen: "127.0.0.1:9090"@ }
}

impl Default for ServerListen {
    fn default() -> (r: ServerListen)
        ensures
            r.deep_view() == default_listen(),
    {
        ServerListen { host: "0.0.0.0".to_owned(), port: 8888, save_dir: "./received".to_owned() }
    }
}

impl Default for BridgeConfig {
    fn default() -> (r: BridgeConfig)
        ensures
            r.deep_view() == default_bridge(),
    {
        BridgeConfig { name: "br0".to_owned(), ip: String::new(), disconnect_timeout: 60 }
    }
}

impl Default for WebConfig {
    fn default() -> (r: WebConfig)
        ensures
            r.deep_view() == default_web(),
    {
        WebConfig { enabled: true, listen: "127.0.0.1:8080".to_owned() }
    }
}

impl Default for MetricsConfig {
    fn default() -> (r: MetricsConfig)
        ensures
            r.deep_view() == default_metrics(),
    {
        MetricsConfig { enabled: false, listen: "127.0.0.1:9090".to_owned() }
    }
}

/// The default server configuration: no networks, no clients.
pub open spec fn default_server() -> ServerConfigView {
    ServerConfigView {
        server: default_listen(),
        bridge: default_bridge(),
        metrics: default_metrics(),
        admin: "/tmp/bifrost-server.sock"@,
        web: default_web(),
        networks: Seq::empty(),
        approved_clients: Seq::empty(),
        pending_clients: Seq::empty(),
    }
}

impl Default for ServerConfig {
    fn default() -> (r: ServerConfig)
        ensures
            r.deep_view() == default_server(),
    {
        let r = ServerConfig {
            server: ServerListen::default(),
            bridge: BridgeConfig::default(),
            metrics: MetricsConfig::default(),
            admin: default_server_admin(),
            web: WebConfig::default(),
            networks: Vec::new(),
            approved_clients: Vec::new(),
            pending_clients: Vec::new(),
        };
        assert(r.deep_view() =~= default_server());
        r
    }
}

// ── Networks ─────────────────────────────────────────────────────────────
/// The bridge name of a network: `bf-` and the first eight digits of its
/// identifier. It fits the kernel's 15 characters.
pub open spec fn bridge_name_chars(net: Uuid) -> Seq<char> {
    "bf-"@ + uuids::short_chars(net)
}

/// The bridge name that belongs to a network.
pub fn default_bridge_name_for(net_uuid: Uuid) -> (r: String)
    ensures
        r@ == bridge_name_chars(net_uuid),
{
    let s = net_uuid.short();
    text::join2("bf-", s.as_str())
}

/// A bridge name has eleven characters.
pub proof fn lemma_bridge_name_fits(net: Uuid)
    ensures
        bridge_name_chars(net).len() == 11,
{
    reveal_strlit("bf-");
}

impl NetRecord {
    /// A record with the derived bridge name and no bridge address.
    pub fn new(name: &str, uuid: Uuid) -> (r: NetRecord)
        ensures
            r.deep_view() == (NetView {
                name: name@,
                uuid: uuid,
                bridge_name: bridge_name_chars(uuid),
                bridge_ip: Seq::empty(),
            }),
    {
        NetRecord {
            name: name.to_owned(),
            uuid: uuid,
            bridge_name: default_bridge_name_for(uuid),
            bridge_ip: String::new(),
        }
    }
}

// ── Upgrades of old configurations ───────────────────────────────────────
/// Selects the networks without a bridge name.
pub open spec fn unnamed_bridge() -> spec_fn(NetView) -> bool {
    |n: NetView| n.bridge_name.len() == 0
}

/// What becomes of the network at `i`: one with a bridge name stays as it is.
/// The first without one takes over the old global bridge and its address,
/// where there is one. Every other gets the name derived from its identifier.
pub open spec fn named_net(nets: Seq<NetView>, legacy: BridgeConfigView, i: int) -> NetView {
    if nets[i].bridge_name.len() > 0 {
        nets[i]
    } else if legacy.name.len() > 0 && seqs::position(nets, unnamed_bridge()) == Some(i) {
        NetView { bridge_name: legacy.name, bridge_ip: legacy.ip, ..nets[i] }
    } else {
        NetView { bridge_name: bridge_name_chars(nets[i].uuid), ..nets[i] }
    }
}

/// The networks, each with its own bridge.
pub open spec fn named_nets(nets: Seq<NetView>, legacy: BridgeConfigView) -> Seq<NetView> {
    Seq::new(nets.len(), |i: int| named_net(nets, legacy, i))
}

/// Selects the rows of one client.
pub open spec fn of_client(c: Uuid) -> spec_fn(ApprovedView) -> bool {
    |a: ApprovedView| a.client_uuid == c
}

/// Selects the row of one client among those without a network.
pub open spec fn pending_of(c: Uuid) -> spec_fn(PendingView) -> bool {
    |p: PendingView| p.client_uuid == c
}

/// Selects the admitted rows.
pub open spec fn is_admitted() -> spec_fn(ApprovedView) -> bool {
    |a: ApprovedView| a.admitted
}

/// Selects the rows that wait for admission.
pub open spec fn not_admitted() -> spec_fn(ApprovedView) -> bool {
    |a: ApprovedView| !a.admitted
}

/// `kept`, extended by the first row of each client of `rows` that has none
/// yet.
pub open spec fn one_per_client(kept: Seq<ApprovedView>, rows: Seq<ApprovedView>) -> Seq<
    ApprovedView,
>
    decreases rows.len(),
{
    if rows.len() == 0 {
        kept
    } else {
        let k = one_per_client(kept, rows.drop_last());
        if seqs::some_where(k, of_client(rows.last().client_uuid)) {
            k
        } else {
            k.push(rows.last())
        }
    }
}

/// One row per client: its first admitted one, else its first.
pub open spec fn collapsed(rows: Seq<ApprovedView>) -> Seq<ApprovedView> {
    one_per_client(
        one_per_client(Seq::empty(), rows.filter(is_admitted())),
        rows.filter(not_admitted()),
    )
}

/// Selects the pending rows of clients that have no row in `rows`.
pub open spec fn absent_from(rows: Seq<ApprovedView>) -> spec_fn(PendingView) -> bool {
    |p: PendingView| !seqs::some_where(rows, of_client(p.client_uuid))
}

/// The client of a member row.
pub open spec fn row_client() -> spec_fn(ApprovedView) -> Uuid {
    |a: ApprovedView| a.client_uuid
}

/// The client of a row without a network.
pub open spec fn pool_client() -> spec_fn(PendingView) -> Uuid {
    |p: PendingView| p.client_uuid
}

/// Whether every client has at most one row, of either kind: a client is a
/// member of one network at most.
pub open spec fn one_row_each(c: ServerConfigView) -> bool {
    &&& seqs::distinct(c.approved_clients, row_client())
    &&& seqs::distinct(c.pending_clients, pool_client())
    &&& forall|i: int, j: int|
        0 <= i < c.approved_clients.len() && 0 <= j < c.pending_clients.len() ==> (
        #[trigger] c.approved_clients[i]).client_uuid != (
        #[trigger] c.pending_clients[j]).client_uuid
}

/// Finds the first row of a client.
pub fn find_approved(rows: &Vec<ApprovedClient>, c: Uuid) -> (r: Option<usize>)
    ensures
        match r {
            Some(i) => i < rows.len() && seqs::position(rows.deep_view(), of_client(c)) == Some(
                i as int,
            ),
            None => seqs::position(rows.deep_view(), of_client(c)) is None,
        },
{
    let mut i: usize = 0;
    while i < rows.len()
        invariant
            0 <= i <= rows.len(),
            forall|j: int| 0 <= j < i ==> (#[trigger] rows[j]).client_uuid != c,
        decreases rows.len() - i,
    {
        if rows[i].client_uuid == c {
            proof {
                seqs::lemma_position_is(rows.deep_view(), of_client(c), i as int);
            }
            return Some(i);
        }
        i += 1;
    }
    proof {
        seqs::lemma_position_none(rows.deep_view(), of_client(c));
    }
    None
}

/// Finds the first pending row of a client.
pub fn find_pending(rows: &Vec<PendingClient>, c: Uuid) -> (r: Option<usize>)
    ensures
        match r {
            Some(i) => i < rows.len() && seqs::position(rows.deep_view(), pending_of(c)) == Some(
                i as int,
            ),
            None => seqs::position(rows.deep_view(), pending_of(c)) is None,
        },
{
    let mut i: usize = 0;
    while i < rows.len()
        invariant
            0 <= i <= rows.len(),
            forall|j: int| 0 <= j < i ==> (#[trigger] rows[j]).client_uuid != c,
        decreases rows.len() - i,
    {
        if rows[i].client_uuid == c {
            proof {
                seqs::lemma_position_is(rows.deep_view(), pending_of(c), i as int);
            }
            return Some(i);
        }
        i += 1;
    }
    proof {
        seqs::lemma_position_none(rows.deep_view(), pending_of(c));
    }
    None
}

impl ServerConfig {
    /// Gives every network its own bridge. Once is enough: afterwards none is
    /// without a name, and doing it again changes nothing.
    pub fn migrate_phase2_bridges(&mut self)
        ensures
            final(self).deep_view() == (ServerConfigView {
                networks: named_nets(
                    old(self).deep_view().networks,
                    old(self).deep_view().bridge,
                ),
                ..old(self).deep_view()
            }),
            forall|i: int|
                0 <= i < final(self).deep_view().networks.len() ==> (
                #[trigger] final(self).deep_view().networks[i]).bridge_name.len() > 0,
            named_nets(final(self).deep_view().networks, final(self).deep_view().bridge)
                == final(self).deep_view().networks,
    {
        let ghost start = self.deep_view();
        let mut legacy_consumed = false;
        let mut out: Vec<NetRecord> = Vec::new();
        let mut i: usize = 0;
        while i < self.networks.len()
            invariant
                self.deep_view() == start,
                0 <= i <= self.networks.len(),
                out.len() == i,
                start.networks.len() == self.networks.len(),
                forall|j: int|
                    0 <= j < i ==> (#[trigger] out[j]).deep_view() == named_net(
                        start.networks,
                        start.bridge,
                        j,
                    ),
                legacy_consumed ==> start.bridge.name.len() > 0 && (seqs::position(
                    start.networks,
                    unnamed_bridge(),
                ) matches Some(k) && k < i),
                start.bridge.name.len() > 0 && !legacy_consumed ==> forall|j: int|
                    0 <= j < i ==> (#[trigger] start.networks[j]).bridge_name.len() > 0,
            decreases self.networks.len() - i,
        {
            let mut net = self.networks[i].copy();
            assert(start.networks[i as int] == self.networks[i as int].deep_view());
            if net.bridge_name.as_str().is_empty() {
                if !legacy_consumed && !self.bridge.name.as_str().is_empty() {
                    proof {
                        seqs::lemma_position_is(start.networks, unnamed_bridge(), i as int);
                    }
                    net.bridge_name = self.bridge.name.clone();
                    net.bridge_ip = self.bridge.ip.clone();
                    legacy_consumed = true;
                } else {
                    net.bridge_name = default_bridge_name_for(net.uuid);
                }
            }
            assert(net.deep_view() =~= named_net(start.networks, start.bridge, i as int));
            out.push(net);
            i += 1;
        }
        self.networks = out;
        assert(self.networks.deep_view() =~= named_nets(start.networks, start.bridge));
        proof {
            migration::law_naming_bridges_is_idempotent(
                start.networks,
                start.bridge,
                start.bridge,
            );
        }
    }

    /// Leaves every client in at most one network, and no client both in a
    /// network and among those without one.
    fn migrate_phase3_one_net_per_client(&mut self)
        ensures
            final(self).deep_view() == (ServerConfigView {
                approved_clients: collapsed(old(self).deep_view().approved_clients),
                pending_clients: old(self).deep_view().pending_clients.filter(
                    absent_from(collapsed(old(self).deep_view().approved_clients)),
                ),
                ..old(self).deep_view()
            }),
    {
        let ghost start = self.deep_view();
        let ghost rows = start.approved_clients;
        let mut keep: Vec<ApprovedClient> = Vec::new();
        let mut i: usize = 0;
        proof {
            seqs::lemma_filter_start(rows, is_admitted());
            assert(keep.deep_view() =~= Seq::<ApprovedView>::empty());
        }
        while i < self.approved_clients.len()
            invariant
                self.deep_view() == start,
                rows == start.approved_clients,
                0 <= i <= self.approved_clients.len(),
                keep.deep_view() == one_per_client(
                    Seq::empty(),
                    rows.take(i as int).filter(is_admitted()),
                ),
            decreases self.approved_clients.len() - i,
        {
            let ac = &self.approved_clients[i];
            let ghost before = keep.deep_view();
            proof {
                seqs::lemma_filter_step(rows, is_admitted(), i as int);
                assert(rows[i as int] == ac.deep_view());
                let f = rows.take(i as int).filter(is_admitted());
                assert(f.push(rows[i as int]).drop_last() =~= f);
            }
            if ac.admitted && find_approved(&keep, ac.client_uuid).is_none() {
                keep.push(ac.copy());
                assert(keep.deep_view() =~= before.push(rows[i as int]));
            }
            i += 1;
        }
        let ghost first = keep.deep_view();
        proof {
            assert(rows.take(i as int) =~= rows);
            seqs::lemma_filter_start(rows, not_admitted());
        }
        i = 0;
        while i < self.approved_clients.len()
            invariant
                self.deep_view() == start,
                rows == start.approved_clients,
                0 <= i <= self.approved_clients.len(),
                keep.deep_view() == one_per_client(
                    first,
                    rows.take(i as int).filter(not_admitted()),
                ),
            decreases self.approved_clients.len() - i,
        {
            let ac = &self.approved_clients[i];
            let ghost before = keep.deep_view();
            proof {
                seqs::lemma_filter_step(rows, not_admitted(), i as int);
                assert(rows[i as int] == ac.deep_view());
                let f = rows.take(i as int).filter(not_admitted());
                assert(f.push(rows[i as int]).drop_last() =~= f);
            }
            if !ac.admitted && find_approved(&keep, ac.client_uuid).is_none() {
                keep.push(ac.copy());
                assert(keep.deep_view() =~= before.push(rows[i as int]));
            }
            i += 1;
        }
        proof {
            assert(rows.take(i as int) =~= rows);
            seqs::lemma_filter_start(
                start.pending_clients,
                absent_from(collapsed(start.approved_clients)),
            );
        }
        let ghost absent = absent_from(collapsed(start.approved_clients));
        let mut waiting: Vec<PendingClient> = Vec::new();
        assert(waiting.deep_view() =~= Seq::<PendingView>::empty());
        i = 0;
        while i < self.pending_clients.len()
            invariant
                self.deep_view() == start,
                0 <= i <= self.pending_clients.len(),
                absent == absent_from(collapsed(start.approved_clients)),
                keep.deep_view() == collapsed(start.approved_clients),
                waiting.deep_view() == start.pending_clients.take(i as int).filter(absent),
            decreases self.pending_clients.len() - i,
        {
            let p = &self.pending_clients[i];
            let ghost before = waiting.deep_view();
            proof {
                seqs::lemma_filter_step(start.pending_clients, absent, i as int);
                assert(start.pending_clients[i as int] == p.deep_view());
            }
            if find_approved(&keep, p.client_uuid).is_none() {
                waiting.push(p.copy());
                assert(waiting.deep_view() =~= before.push(p.deep_view()));
            }
            i += 1;
        }
        proof {
            assert(start.pending_clients.take(i as int) =~= start.pending_clients);
        }
        self.approved_clients = keep;
        self.pending_clients = waiting;
    }

    /// Brings a configuration that was read from disk up to date: every
    /// network gets its own bridge, and every client at most one network.
    pub fn migrate(&mut self)
        ensures
            final(self).deep_view() == migrated(old(self).deep_view()),
    {
        self.migrate_phase2_bridges();
        self.migrate_phase3_one_net_per_client();
    }
}

/// A configuration brought up to date.
pub open spec fn migrated(c: ServerConfigView) -> ServerConfigView {
    ServerConfigView {
        networks: named_nets(c.networks, c.bridge),
        approved_clients: collapsed(c.approved_clients),
        pending_clients: c.pending_clients.filter(absent_from(collapsed(c.approved_clients))),
        ..c
    }
}

// ── Client ───────────────────────────────────────────────────────────────
/// A route in the client's configuration.
#[derive(Debug, Clone, PartialEq, Eq)]
pub struct WireRoute {
    pub dst: String,
    pub via: String,
}

/// The client's identity and server.
#[derive(Debug, Clone, PartialEq, Eq)]
pub struct ClientCore {
    /// Generated on first run if empty.
    pub uuid: String,
    pub host: String,
    pub port: u16,
    pub save_dir: String,
    pub retry_interval: u32,
    /// The network to join again on reconnect; empty for none.
    pub joined_network: String,
}

/// The SOCKS5 proxy in front of the server.
#[derive(Debug, Clone, PartialEq, Eq)]
pub struct ProxyConfig {
    pub enabled: bool,
    pub host: String,
    pub port: u16,
}

/// The TAP address that the server pushed last; empty for none.
#[derive(Debug, Clone, PartialEq, Eq)]
pub struct TapConfig {
    pub ip: String,
}

/// The client's configuration.
#[derive(Debug, Clone, PartialEq, Eq)]
pub struct ClientConfig {
    pub client: ClientCore,
    pub proxy: ProxyConfig,
    pub tap: TapConfig,
    pub admin: AdminConfig,
    pub routes: Vec<WireRoute>,
}

/// The content of a [`ClientCore`].
#[verifier::ext_equal]
pub struct ClientCoreView {
    pub uuid: Seq<char>,
    pub host: Seq<char>,
    pub port: u16,
    pub save_dir: Seq<char>,
    pub retry_interval: u32,
    pub joined_network: Seq<char>,
}

/// The content of a [`ProxyConfig`].
#[verifier::ext_equal]
pub struct ProxyConfigView {
    pub enabled: bool,
    pub host: Seq<char>,
    pub port: u16,
}

/// The content of a [`ClientConfig`].
#[verifier::ext_equal]
pub struct ClientConfigView {
    pub client: ClientCoreView,
    pub proxy: ProxyConfigView,
    pub tap_ip: Seq<char>,
    pub admin: Seq<char>,
    pub routes: Seq<RouteView>,
}

impl DeepView for WireRoute {
    type V = RouteView;

    open spec fn deep_view(&self) -> RouteView {
        RouteView { dst: self.dst@, via: self.via@ }
    }
}

impl DeepView for ClientCore {
    type V = ClientCoreView;

    open spec fn deep_view(&self) -> ClientCoreView {
        ClientCoreView {
            uuid: self.uuid@,
            host: self.host@,
            port: self.port,
            save_dir: self.save_dir@,
            retry_interval: self.retry_interval,
            joined_network: self.joined_network@,
        }
    }
}

impl DeepView for ProxyConfig {
    type V = ProxyConfigView;

    open spec fn deep_view(&self) -> ProxyConfigView {
        ProxyConfigView { enabled: self.enabled, host: self.host@, port: self.port }
    }
}

impl DeepView for TapConfig {
    type V = Seq<char>;

    open spec fn deep_view(&self) -> Seq<char> {
        self.ip@
    }
}

impl DeepView for ClientConfig {
    type V = ClientConfigView;

    open spec fn deep_view(&self) -> ClientConfigView {
        ClientConfigView {
            client: self.client.deep_view(),
            proxy: self.proxy.deep_view(),
            tap_ip: self.tap.deep_view(),
            admin: self.admin.deep_view(),
            routes: self.routes.deep_view(),
        }
    }
}

/// The default client identity: none yet, and a server on this host.
pub open spec fn default_core() -> ClientCoreView {
    ClientCoreView {
        uuid: Seq::empty(),
        host: "127.0.0.1"@,
        port: 8888,
        save_dir: "./received"@,
        retry_interval: 5,
        joined_network: Seq::empty(),
    }
}

/// The default proxy: off.
pub open spec fn default_proxy() -> ProxyConfigView {
    ProxyConfigView { enabled: false, host: "127.0.0.1"@, port: 1080 }
}

/// The default client configuration.
pub open spec fn default_client() -> ClientConfigView {
    ClientConfigView {
        client: default_core(),
        proxy: default_proxy(),
        tap_ip: Seq::empty(),
        admin: "/tmp/bifrost-client.sock"@,
        routes: Seq::empty(),
    }
}

impl Default for ClientCore {
    fn default() -> (r: ClientCore)
        ensures
            r.deep_view() == default_core(),
    {
        ClientCore {
            uuid: String::new(),
            host: "127.0.0.1".to_owned(),
            port: 8888,
            save_dir: "./received".to_owned(),
            retry_interval: 5,
            joined_network: String::new(),
        }
    }
}

impl Default for ProxyConfig {
    fn default() -> (r: ProxyConfig)
        ensures
            r.deep_view() == default_proxy(),
    {
        ProxyConfig { enabled: false, host: "127.0.0.1".to_owned(), port: 1080 }
    }
}

impl Default for TapConfig {
    fn default() -> (r: TapConfig)
        ensures
            r.deep_view() == Seq::<char>::empty(),
    {
        TapConfig { ip: String::new() }
    }
}

impl Default for ClientConfig {
    fn default() -> (r: ClientConfig)
        ensures
            r.deep_view() == default_client(),
    {
        let r = ClientConfig {
            client: ClientCore::default(),
            proxy: ProxyConfig::default(),
            tap: TapConfig::default(),
            admin: default_client_admin(),
            routes: Vec::new(),
        };
        assert(r.deep_view() =~= default_client());
        r
    }
}

// ── Laws ─────────────────────────────────────────────────────────────────
/// A server without a configuration listens on port 8888 of every address, shows
/// its web interface to this host only, keeps no metrics listener, and knows no
/// network and no client. A session outlives its connection by a minute.
pub proof fn law_server_defaults()
    ensures
        ({
            let c = default_server();
            &&& c.server.host == "0.0.0.0"@ && c.server.port == 8888
            &&& c.server.save_dir == "./received"@
            &&& c.web.enabled && c.web.listen == "127.0.0.1:8080"@
            &&& !c.metrics.enabled && c.metrics.listen == "127.0.0.1:9090"@
            &&& c.bridge.name == "br0"@ && c.bridge.ip.len() == 0
            &&& c.bridge.disconnect_timeout == 60
            &&& c.admin == "/tmp/bifrost-server.sock"@
            &&& c.networks.len() == 0 && c.approved_clients.len() == 0
            &&& c.pending_clients.len() == 0
        }),
{
}

/// A client without a configuration has no identity and wants no network. It
/// looks for a server on this host, without a proxy, and tries again after five
/// seconds.
pub proof fn law_client_defaults()
    ensures
        ({
            let c = default_client();
            &&& c.client.uuid.len() == 0 && c.client.joined_network.len() == 0
            &&& c.client.host == "127.0.0.1"@ && c.client.port == 8888
            &&& c.client.save_dir == "./received"@ && c.client.retry_interval == 5
            &&& !c.proxy.enabled && c.proxy.host == "127.0.0.1"@ && c.proxy.port == 1080
            &&& c.tap_ip.len() == 0 && c.routes.len() == 0
            &&& c.admin == "/tmp/bifrost-client.sock"@
        }),
{
}

/// The bridge of a network is named after it, and networks whose identities
/// begin with other digits have other bridges.
pub proof fn law_bridges_are_named_after_networks(a: Uuid, b: Uuid)
    ensures
        bridge_name_chars(a) == "bf-"@ + uuids::short_chars(a),
        uuids::short_chars(a) != uuids::short_chars(b) ==> bridge_name_chars(a)
            != bridge_name_chars(b),
{
    if bridge_name_chars(a) == bridge_name_chars(b) {
        let k = "bf-"@.len() as int;
        assert(bridge_name_chars(a).skip(k) =~= uuids::short_chars(a));
        assert(bridge_name_chars(b).skip(k) =~= uuids::short_chars(b));
    }
}

} // verus!
