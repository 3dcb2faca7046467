//! One client as the admin tools and the web interface see it.
use vstd::prelude::*;
use vstd::string::*;

use crate::text;
use crate::uuids::Uuid;

verus! {

/// A client's persistent row together with its live state. `net_uuid` is
/// `None` for a client without a network.
#[derive(Debug, Clone, PartialEq, Eq)]
pub struct DeviceEntry {
    pub client_uuid: Uuid,
    pub net_uuid: Option<Uuid>,
    pub display_name: String,
    pub admitted: bool,
    pub tap_ip: Option<String>,
    pub lan_subnets: Vec<String>,
    /// Whether the client is connected.
    pub online: bool,
    /// The session, while there is one.
    pub sid: Option<u64>,
    /// The kernel name of the session's TAP, while there is one.
    pub tap_name: Option<String>,
}

/// The content of a [`DeviceEntry`].
#[verifier::ext_equal]
pub struct DeviceView {
    pub client_uuid: Uuid,
    pub net_uuid: Option<Uuid>,
    pub display_name: Seq<char>,
    pub admitted: bool,
    pub tap_ip: Option<Seq<char>>,
    pub lan_subnets: Seq<Seq<char>>,
    pub online: bool,
    pub sid: Option<u64>,
    pub tap_name: Option<Seq<char>>,
}

impl DeepView for DeviceEntry {
    type V = DeviceView;

    open spec fn deep_view(&self) -> DeviceView {
        DeviceView {
            client_uuid: self.client_uuid,
            net_uuid: self.net_uuid,
            display_name: self.display_name@,
            admitted: self.admitted,
            tap_ip: self.tap_ip.deep_view(),
            lan_subnets: self.lan_subnets.deep_view(),
            online: self.online,
            sid: self.sid,
            tap_name: self.tap_name.deep_view(),
        }
    }
}

impl DeviceEntry {
    /// A copy of this entry.
    pub fn copy(&self) -> (r: DeviceEntry)
        ensures
            r.deep_view() == self.deep_view(),
    {
        DeviceEntry {
            client_uuid: self.client_uuid,
            net_uuid: self.net_uuid,
            display_name: self.display_name.clone(),
            admitted: self.admitted,
            tap_ip: text::copy_opt(&self.tap_ip),
            lan_subnets: text::copy_texts(&self.lan_subnets),
            online: self.online,
            sid: self.sid,
            tap_name: text::copy_opt(&self.tap_name),
        }
    }
}

/// An address as an option: none where the text is empty.
pub open spec fn opt_ip(ip: Seq<char>) -> Option<Seq<char>> {
    if ip.len() == 0 {
        None
    } else {
        Some(ip)
    }
}

/// Reads an empty address as none.
pub fn ip_option(ip: &String) -> (r: Option<String>)
    ensures
        r.deep_view() == opt_ip(ip@),
{
    if ip.as_str().is_empty() {
        None
    } else {
        Some(ip.clone())
    }
}

/// The entry of a client without a network and without a session.
pub open spec fn unassigned(
    client: Uuid,
    name: Seq<char>,
    subnets: Seq<Seq<char>>,
    online: bool,
) -> DeviceView {
    DeviceView {
        client_uuid: client,
        net_uuid: None,
        display_name: name,
        admitted: false,
        tap_ip: None,
        lan_subnets: subnets,
        online: online,
        sid: None,
        tap_name: None,
    }
}

/// Builds the entry of a client without a network.
pub fn unassigned_entry(client: Uuid, name: &String, subnets: &Vec<String>, online: bool) -> (r:
    DeviceEntry)
    ensures
        r.deep_view() == unassigned(client, name@, subnets.deep_view(), online),
{
    DeviceEntry {
        client_uuid: client,
        net_uuid: None,
        display_name: name.clone(),
        admitted: false,
        tap_ip: None,
        lan_subnets: text::copy_texts(subnets),
        online: online,
        sid: None,
        tap_name: None,
    }
}

} // verus!
