//! IP addresses, networks in CIDR form, and parsed routes.
use vstd::arithmetic::power2::pow2;
use vstd::prelude::*;
use vstd::string::*;

use crate::text;

verus! {

/// An IPv4 or IPv6 address, as the number that its octets spell.
#[derive(Debug, Clone, Copy, PartialEq, Eq, Structural, Hash)]
pub enum IpAddr {
    V4(u32),
    V6(u128),
}

impl IpAddr {
    /// The number of bits in an address of this family.
    pub open spec fn width(self) -> nat {
        match self {
            IpAddr::V4(_) => 32,
            IpAddr::V6(_) => 128,
        }
    }
}

impl DeepView for IpAddr {
    type V = IpAddr;

    open spec fn deep_view(&self) -> IpAddr {
        *self
    }
}

/// An address with a prefix length. The host bits are kept.
#[derive(Debug, Clone, Copy, PartialEq, Eq, Structural, Hash)]
pub struct IpNet {
    pub addr: IpAddr,
    pub prefix: u8,
}

impl IpNet {
    /// The prefix is no longer than the address.
    pub open spec fn valid(self) -> bool {
        self.prefix <= self.addr.width()
    }

    /// Whether `ip` lies in this network: same family, same prefix bits.
    pub open spec fn covers(self, ip: IpAddr) -> bool {
        match (self.addr, ip) {
            (IpAddr::V4(a), IpAddr::V4(b)) => {
                let d = pow2((32 - self.prefix) as nat) as int;
                a as int / d == b as int / d
            },
            (IpAddr::V6(a), IpAddr::V6(b)) => {
                let d = pow2((128 - self.prefix) as nat) as int;
                a as int / d == b as int / d
            },
            _ => false,
        }
    }

    /// The address, a slash and the prefix length.
    pub open spec fn chars(self) -> Seq<char> {
        ip_chars(self.addr) + "/"@ + text::dec(self.prefix as nat)
    }
}

impl DeepView for IpNet {
    type V = IpNet;

    open spec fn deep_view(&self) -> IpNet {
        *self
    }
}

/// What the standard library's `Display` writes for an address.
pub uninterp spec fn ip_chars(a: IpAddr) -> Seq<char>;

/// What `ipnet::IpNet::from_str` reads from a string.
pub uninterp spec fn net_parsed(s: Seq<char>) -> Option<IpNet>;

/// What the standard library reads as a bare address from a string.
pub uninterp spec fn ip_parsed(s: Seq<char>) -> Option<IpAddr>;

/// Dotted decimal notation.
pub open spec fn dotted(n: u32) -> Seq<char> {
    text::dec((n / 0x100_0000) as nat) + "."@ + text::dec((n / 0x1_0000 % 0x100) as nat) + "."@
        + text::dec((n / 0x100 % 0x100) as nat) + "."@ + text::dec((n % 0x100) as nat)
}

/// An IPv4 network in CIDR notation.
pub open spec fn dotted_cidr(n: u32, prefix: u8) -> Seq<char> {
    dotted(n) + "/"@ + text::dec(prefix as nat)
}

/// What is said of a string that is no network in CIDR form.
pub open spec fn no_net_chars() -> Seq<char> {
    "invalid IP address syntax"@
}

/// Reads a network in CIDR form. Calls `ipnet::IpNet::from_str`. The contract
/// names the result, says that the prefix of what is read fits its address,
/// that an IPv4 network written in dotted decimal is read as written, and gives
/// the text of the error, which is always the same.
#[verifier::external_body]
fn parsed_net(s: &str) -> (r: Result<IpNet, String>)
    ensures
        match r {
            Ok(n) => net_parsed(s@) == Some(n) && n.valid(),
            Err(e) => net_parsed(s@) is None && e@ == no_net_chars(),
        },
        forall|a: u32, p: u8|
            p <= 32 && s@ == #[trigger] dotted_cidr(a, p) ==> r is Ok && r->Ok_0 == (IpNet {
                addr: IpAddr::V4(a),
                prefix: p,
            }),
{
    match s.parse::<::ipnet::IpNet>() {
        Ok(::ipnet::IpNet::V4(n)) => Ok(IpNet { addr: IpAddr::V4(n.addr().into()), prefix: n.prefix_len() }),
        Ok(::ipnet::IpNet::V6(n)) => Ok(IpNet { addr: IpAddr::V6(n.addr().into()), prefix: n.prefix_len() }),
        Err(e) => Err(e.to_string()),
    }
}

/// Reads a bare address. Calls the standard library's `FromStr` of an IP
/// address. The contract names the result, and says that an IPv4 address
/// written in dotted decimal is read as written.
#[verifier::external_body]
fn parsed_ip(s: &str) -> (r: Option<IpAddr>)
    ensures
        r == ip_parsed(s@),
        forall|a: u32| s@ == #[trigger] dotted(a) ==> r == Some(IpAddr::V4(a)),
{
    match ::ipnet::IpNet::new(s.parse().ok()?, 0).ok()? {
        ::ipnet::IpNet::V4(n) => Some(IpAddr::V4(n.addr().into())),
        ::ipnet::IpNet::V6(n) => Some(IpAddr::V6(n.addr().into())),
    }
}

/// The text of an address. Calls the standard library's `Display` of an IP
/// address, which writes an IPv4 address in dotted decimal, a form that is read
/// back. Of the text of an IPv6 address the contract only gives the name.
#[verifier::external_body]
fn ip_text(a: IpAddr) -> (r: String)
    ensures
        r@ == ip_chars(a),
        a matches IpAddr::V4(n) ==> r@ == dotted(n) && ip_parsed(r@) == Some(a),
{
    match a {
        IpAddr::V4(n) => ::ipnet::Ipv4Net::new_assert(n.into(), 32).addr().to_string(),
        IpAddr::V6(n) => ::ipnet::Ipv6Net::new_assert(n.into(), 128).addr().to_string(),
    }
}

/// Whether an address lies in a network. Calls `ipnet::IpNet::contains`, which
/// compares with the network's first and last address.
#[verifier::external_body]
fn net_contains(net: IpNet, ip: IpAddr) -> (r: bool)
    requires
        net.valid(),
    ensures
        r == net.covers(ip),
{
    let host = |a: IpAddr| match a {
        IpAddr::V4(n) => ::ipnet::IpNet::from(::ipnet::Ipv4Net::new_assert(n.into(), 32)),
        IpAddr::V6(n) => ::ipnet::IpNet::from(::ipnet::Ipv6Net::new_assert(n.into(), 128)),
    };
    ::ipnet::IpNet::new_assert(host(net.addr).addr(), net.prefix).contains(&host(ip).addr())
}

impl IpAddr {
    /// Reads a bare address.
    pub fn parse(s: &str) -> (r: Option<IpAddr>)
        ensures
            r == ip_parsed(s@),
            forall|a: u32| s@ == #[trigger] dotted(a) ==> r == Some(IpAddr::V4(a)),
    {
        parsed_ip(s)
    }

    /// The text of the address.
    pub fn to_text(&self) -> (r: String)
        ensures
            r@ == ip_chars(*self),
            self matches IpAddr::V4(n) ==> r@ == dotted(*n) && ip_parsed(r@) == Some(*self),
    {
        ip_text(*self)
    }
}

impl IpNet {
    /// Reads a network in CIDR form.
    pub fn parse(s: &str) -> (r: Option<IpNet>)
        ensures
            r == net_parsed(s@),
            r matches Some(n) ==> n.valid(),
            forall|a: u32, p: u8|
                p <= 32 && s@ == #[trigger] dotted_cidr(a, p) ==> r == Some(
                    (IpNet { addr: IpAddr::V4(a), prefix: p }),
                ),
    {
        match parsed_net(s) {
            Ok(n) => Some(n),
            Err(_) => None,
        }
    }

    /// Reads a network in CIDR form; the error is a message.
    pub fn read(s: &str) -> (r: Result<IpNet, String>)
        ensures
            match r {
                Ok(n) => net_parsed(s@) == Some(n),
                Err(e) => net_parsed(s@) is None && e@ == no_net_chars(),
            },
    {
        parsed_net(s)
    }

    /// The CIDR form.
    pub fn to_text(&self) -> (r: String)
        ensures
            r@ == self.chars(),
    {
        let a = ip_text(self.addr);
        let p = text::dec_text(self.prefix as u64);
        text::join3(a.as_str(), "/", p.as_str())
    }

    /// Whether `ip` lies in this network.
    pub fn contains(&self, ip: IpAddr) -> (r: bool)
        requires
            self.valid(),
        ensures
            r == self.covers(ip),
    {
        net_contains(*self, ip)
    }
}

// ── Parsed routes ────────────────────────────────────────────────────────
/// Why a route could not be read.
#[derive(Debug)]
pub enum ParseError {
    BadCidr(String),
    BadIp(String),
}

/// The content of a [`ParseError`].
pub enum ParseErrorView {
    BadCidr(Seq<char>),
    BadIp(Seq<char>),
}

impl DeepView for ParseError {
    type V = ParseErrorView;

    open spec fn deep_view(&self) -> ParseErrorView {
        match self {
            ParseError::BadCidr(s) => ParseErrorView::BadCidr(s@),
            ParseError::BadIp(s) => ParseErrorView::BadIp(s@),
        }
    }
}

impl ParseErrorView {
    /// The message.
    pub open spec fn chars(self) -> Seq<char> {
        match self {
            ParseErrorView::BadCidr(s) => "invalid CIDR: "@ + s,
            ParseErrorView::BadIp(s) => "invalid IP address: "@ + s,
        }
    }
}

impl ParseError {
    /// The message.
    pub fn to_text(&self) -> (r: String)
        ensures
            r@ == self.deep_view().chars(),
    {
        match self {
            ParseError::BadCidr(s) => text::join2("invalid CIDR: ", s.as_str()),
            ParseError::BadIp(s) => text::join2("invalid IP address: ", s.as_str()),
        }
    }
}

/// A routing-table row in parsed form.
#[derive(Debug, Clone, Copy, PartialEq, Eq, Structural)]
pub struct RouteEntry {
    pub dst: IpNet,
    pub via: IpAddr,
}

impl DeepView for RouteEntry {
    type V = RouteEntry;

    open spec fn deep_view(&self) -> RouteEntry {
        *self
    }
}

/// What a destination and a gateway read as: both must be well formed, and
/// the destination is looked at first.
pub open spec fn route_parsed(dst: Seq<char>, via: Seq<char>) -> Result<RouteEntry, ParseErrorView> {
    match (net_parsed(dst), ip_parsed(via)) {
        (Some(d), Some(v)) => Ok(RouteEntry { dst: d, via: v }),
        (None, _) => Err(ParseErrorView::BadCidr(dst)),
        (Some(_), None) => Err(ParseErrorView::BadIp(via)),
    }
}

impl RouteEntry {
    /// Reads a destination in CIDR form and a gateway address.
    pub fn parse(dst: &str, via: &str) -> (r: Result<RouteEntry, ParseError>)
        ensures
            match r {
                Ok(e) => route_parsed(dst@, via@) == Result::<RouteEntry, ParseErrorView>::Ok(e),
                Err(e) => route_parsed(dst@, via@) == Result::<RouteEntry, ParseErrorView>::Err(
                    e.deep_view(),
                ),
            },
    {
        match IpNet::parse(dst) {
            None => Err(ParseError::BadCidr(dst.to_owned())),
            Some(d) => match IpAddr::parse(via) {
                None => Err(ParseError::BadIp(via.to_owned())),
                Some(v) => Ok(RouteEntry { dst: d, via: v }),
            },
        }
    }
}

/// A route is read where its destination is a network and its gateway an
/// address. Otherwise it is said which of the two is wrong, the destination
/// first.
pub proof fn law_routes_are_read(dst: Seq<char>, via: Seq<char>)
    ensures
        ({
            let r = route_parsed(dst, via);
            &&& r is Ok <==> net_parsed(dst) is Some && ip_parsed(via) is Some
            &&& r matches Ok(e) ==> net_parsed(dst) == Some(e.dst) && ip_parsed(via) == Some(e.via)
            &&& net_parsed(dst) is None ==> (r matches Err(e) && e.chars() == "invalid CIDR: "@
                + dst)
            &&& net_parsed(dst) is Some && ip_parsed(via) is None ==> (r matches Err(e)
                && e.chars() == "invalid IP address: "@ + via)
        }),
{
}

} // verus!
