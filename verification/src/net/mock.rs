//! In-memory stand-ins for TAPs, bridges and the platform.
//!
//! What is injected into a TAP is read from it, in order, and what is written
//! to it can be taken out again, in order.
use vstd::prelude::*;
use vstd::string::*;

use crate::addr::{IpNet, RouteEntry};
use crate::frame;
use crate::seqs;
use crate::text;

verus! {

/// Why a write failed.
#[derive(Debug, Clone, Copy, PartialEq, Eq, Structural)]
pub enum MockError {
    /// The TAP is destroyed.
    BrokenPipe,
}

/// What was done to a TAP.
#[derive(Debug, Clone, PartialEq, Eq)]
pub struct MockTapState {
    pub ip: Option<IpNet>,
    pub routes: Vec<RouteEntry>,
    pub destroyed: bool,
}

/// A TAP in memory.
#[derive(Debug)]
pub struct MockTap {
    pub name: String,
    /// Frames that wait to be read, the next one first.
    pub injected: Vec<Vec<u8>>,
    /// Frames that were written, the oldest first.
    pub written: Vec<Vec<u8>>,
    pub state: MockTapState,
}

/// The content of a [`MockTap`].
#[verifier::ext_equal]
pub struct MockTapView {
    pub name: Seq<char>,
    pub injected: Seq<Seq<u8>>,
    pub written: Seq<Seq<u8>>,
    pub ip: Option<IpNet>,
    pub routes: Seq<RouteEntry>,
    pub destroyed: bool,
}

impl DeepView for MockTap {
    type V = MockTapView;

    open spec fn deep_view(&self) -> MockTapView {
        MockTapView {
            name: self.name@,
            injected: self.injected@.map_values(|f: Vec<u8>| f@),
            written: self.written@.map_values(|f: Vec<u8>| f@),
            ip: self.state.ip,
            routes: self.state.routes@,
            destroyed: self.state.destroyed,
        }
    }
}

/// A fresh TAP.
pub open spec fn fresh_tap(name: Seq<char>, ip: Option<IpNet>) -> MockTapView {
    MockTapView {
        name: name,
        injected: Seq::empty(),
        written: Seq::empty(),
        ip: ip,
        routes: Seq::empty(),
        destroyed: false,
    }
}

/// The first of two numbers that is not larger.
pub open spec fn least(a: nat, b: nat) -> int {
    if a <= b {
        a as int
    } else {
        b as int
    }
}

fn copy_route_entries(v: &Vec<RouteEntry>) -> (r: Vec<RouteEntry>)
    ensures
        r@ == v@,
{
    let mut out: Vec<RouteEntry> = Vec::new();
    let mut i: usize = 0;
    while i < v.len()
        invariant
            0 <= i <= v.len(),
            out@ == v@.take(i as int),
        decreases v.len() - i,
    {
        out.push(v[i]);
        assert(v@.take(i + 1) =~= v@.take(i as int).push(v[i as int]));
        i += 1;
    }
    assert(v@.take(i as int) =~= v@);
    out
}

impl MockTap {
    /// A TAP with this name, and nothing else.
    pub fn new(name: &str) -> (r: MockTap)
        ensures
            r.deep_view() == fresh_tap(name@, None),
    {
        let r = MockTap {
            name: name.to_owned(),
            injected: Vec::new(),
            written: Vec::new(),
            state: MockTapState { ip: None, routes: Vec::new(), destroyed: false },
        };
        assert(r.deep_view() =~= fresh_tap(name@, None));
        r
    }

    /// The name.
    pub fn name(&self) -> (r: &str)
        ensures
            r@ == self.deep_view().name,
    {
        self.name.as_str()
    }

    /// Puts in a frame to be read.
    pub fn inject_frame(&mut self, frame: Vec<u8>)
        ensures
            final(self).deep_view() == (MockTapView {
                injected: old(self).deep_view().injected.push(frame@),
                ..old(self).deep_view()
            }),
    {
        self.injected.push(frame);
        assert(self.deep_view().injected =~= old(self).deep_view().injected.push(frame@));
    }

    /// Reads the next frame into a buffer of `max` bytes, cut to it; nothing
    /// where none waits.
    pub fn read(&mut self, max: usize) -> (r: Option<Vec<u8>>)
        ensures
            match r {
                Some(f) => {
                    let v = old(self).deep_view();
                    &&& v.injected.len() > 0
                    &&& f@ == v.injected[0].take(least(v.injected[0].len(), max as nat))
                    &&& final(self).deep_view() == (MockTapView {
                        injected: v.injected.drop_first(),
                        ..v
                    })
                },
                None => {
                    &&& old(self).deep_view().injected.len() == 0
                    &&& final(self).deep_view() == old(self).deep_view()
                },
            },
    {
        let ghost v = self.deep_view();
        assert(v.injected.len() == self.injected.len());
        if self.injected.len() == 0 {
            return None;
        }
        let mut frame = self.injected.remove(0);
        assert(frame@ == v.injected[0]);
        assert(self.deep_view().injected =~= v.injected.drop_first());
        if frame.len() > max {
            frame.truncate(max);
        }
        assert(frame@ =~= v.injected[0].take(least(v.injected[0].len(), max as nat)));
        Some(frame)
    }

    /// Writes a frame. A destroyed TAP takes none.
    pub fn write(&mut self, frame: &Vec<u8>) -> (r: Result<usize, MockError>)
        ensures
            r == (if old(self).deep_view().destroyed {
                Err::<usize, MockError>(MockError::BrokenPipe)
            } else {
                Ok::<usize, MockError>(frame.len())
            }),
            final(self).deep_view() == (if old(self).deep_view().destroyed {
                old(self).deep_view()
            } else {
                MockTapView {
                    written: old(self).deep_view().written.push(frame@),
                    ..old(self).deep_view()
                }
            }),
    {
        if self.state.destroyed {
            return Err(MockError::BrokenPipe);
        }
        let ghost v = self.deep_view();
        self.written.push(frame::copy_bytes(frame));
        assert(self.deep_view().written =~= v.written.push(frame@));
        Ok(frame.len())
    }

    /// Takes out the oldest frame that was written, if any.
    pub fn pop_written(&mut self) -> (r: Option<Vec<u8>>)
        ensures
            match r {
                Some(f) => {
                    let v = old(self).deep_view();
                    &&& v.written.len() > 0
                    &&& f@ == v.written[0]
                    &&& final(self).deep_view() == (MockTapView {
                        written: v.written.drop_first(),
                        ..v
                    })
                },
                None => {
                    &&& old(self).deep_view().written.len() == 0
                    &&& final(self).deep_view() == old(self).deep_view()
                },
            },
    {
        let ghost v = self.deep_view();
        assert(v.written.len() == self.written.len());
        if self.written.len() == 0 {
            return None;
        }
        let f = self.written.remove(0);
        assert(f@ == v.written[0]);
        assert(self.deep_view().written =~= v.written.drop_first());
        Some(f)
    }

    /// Replaces the address.
    pub fn set_ip(&mut self, ip: Option<IpNet>)
        ensures
            final(self).deep_view() == (MockTapView { ip: ip, ..old(self).deep_view() }),
    {
        self.state.ip = ip;
    }

    /// Replaces the routing table.
    pub fn apply_routes(&mut self, routes: &Vec<RouteEntry>)
        ensures
            final(self).deep_view() == (MockTapView { routes: routes@, ..old(self).deep_view() }),
    {
        self.state.routes = copy_route_entries(routes);
    }

    /// Destroys the TAP.
    pub fn destroy(&mut self)
        ensures
            final(self).deep_view() == (MockTapView { destroyed: true, ..old(self).deep_view() }),
    {
        self.state.destroyed = true;
    }

    /// What was done to the TAP.
    pub fn snapshot(&self) -> (r: MockTapState)
        ensures
            r.ip == self.deep_view().ip,
            r.routes@ == self.deep_view().routes,
            r.destroyed == self.deep_view().destroyed,
    {
        MockTapState {
            ip: self.state.ip,
            routes: copy_route_entries(&self.state.routes),
            destroyed: self.state.destroyed,
        }
    }
}

// ── Bridges ──────────────────────────────────────────────────────────────
/// What was done to a bridge.
#[derive(Debug, Clone, PartialEq, Eq)]
pub struct MockBridgeState {
    pub ports: Vec<String>,
    pub routes: Vec<RouteEntry>,
    pub destroyed: bool,
}

/// A bridge in memory.
#[derive(Debug)]
pub struct MockBridge {
    pub name: String,
    pub state: MockBridgeState,
}

/// The content of a [`MockBridge`].
#[verifier::ext_equal]
pub struct MockBridgeView {
    pub name: Seq<char>,
    pub ports: Seq<Seq<char>>,
    pub routes: Seq<RouteEntry>,
    pub destroyed: bool,
}

impl DeepView for MockBridge {
    type V = MockBridgeView;

    open spec fn deep_view(&self) -> MockBridgeView {
        MockBridgeView {
            name: self.name@,
            ports: self.state.ports.deep_view(),
            routes: self.state.routes@,
            destroyed: self.state.destroyed,
        }
    }
}

/// The ports of a bridge with one more.
pub open spec fn with_port(ports: Seq<Seq<char>>, tap: Seq<char>) -> Seq<Seq<char>> {
    if ports.contains(tap) {
        ports
    } else {
        ports.push(tap)
    }
}

/// Selects the ports with another name.
pub open spec fn other_than(tap: Seq<char>) -> spec_fn(Seq<char>) -> bool {
    |p: Seq<char>| p != tap
}

impl MockBridge {
    /// A bridge with this name, and nothing else.
    pub fn new(name: &str) -> (r: MockBridge)
        ensures
            r.deep_view() == (MockBridgeView {
                name: name@,
                ports: Seq::empty(),
                routes: Seq::empty(),
                destroyed: false,
            }),
    {
        let r = MockBridge {
            name: name.to_owned(),
            state: MockBridgeState { ports: Vec::new(), routes: Vec::new(), destroyed: false },
        };
        assert(r.deep_view().ports =~= Seq::<Seq<char>>::empty());
        assert(r.deep_view().routes =~= Seq::<RouteEntry>::empty());
        r
    }

    /// The name.
    pub fn name(&self) -> (r: &str)
        ensures
            r@ == self.deep_view().name,
    {
        self.name.as_str()
    }

    /// Makes a TAP a port, unless it is one.
    pub fn add_tap(&mut self, tap_name: &str)
        ensures
            final(self).deep_view() == (MockBridgeView {
                ports: with_port(old(self).deep_view().ports, tap_name@),
                ..old(self).deep_view()
            }),
    {
        let ghost v = self.deep_view();
        let mut i: usize = 0;
        while i < self.state.ports.len()
            invariant
                0 <= i <= self.state.ports.len(),
                self.deep_view() == v,
                v == old(self).deep_view(),
                forall|j: int| 0 <= j < i ==> v.ports[j] != tap_name@,
            decreases self.state.ports.len() - i,
        {
            assert(v.ports[i as int] == self.state.ports[i as int]@);
            if text::same_text(self.state.ports[i].as_str(), tap_name) {
                return;
            }
            i += 1;
        }
        assert(v.ports.len() == self.state.ports.len());
        self.state.ports.push(tap_name.to_owned());
        assert(self.deep_view().ports =~= v.ports.push(tap_name@));
    }

    /// Removes a port, if it is there.
    pub fn remove_tap(&mut self, tap_name: &str)
        ensures
            final(self).deep_view() == (MockBridgeView {
                ports: old(self).deep_view().ports.filter(other_than(tap_name@)),
                ..old(self).deep_view()
            }),
    {
        let ghost all = self.deep_view().ports;
        let ghost keep = other_than(tap_name@);
        let mut out: Vec<String> = Vec::new();
        let mut i: usize = 0;
        proof {
            seqs::lemma_filter_start(all, keep);
            assert(out.deep_view() =~= all.take(0).filter(keep));
        }
        while i < self.state.ports.len()
            invariant
                0 <= i <= self.state.ports.len(),
                all == self.state.ports.deep_view(),
                keep == other_than(tap_name@),
                *self == *old(self),
                out.deep_view() == all.take(i as int).filter(keep),
            decreases self.state.ports.len() - i,
        {
            let ghost before = out.deep_view();
            proof {
                seqs::lemma_filter_step(all, keep, i as int);
                assert(all[i as int] == self.state.ports[i as int]@);
            }
            if !text::same_text(self.state.ports[i].as_str(), tap_name) {
                let p = self.state.ports[i].clone();
                out.push(p);
                assert(out.deep_view() =~= before.push(p@));
            }
            i += 1;
        }
        assert(all.take(i as int) =~= all);
        self.state.ports = out;
    }

    /// Replaces the routing table.
    pub fn apply_routes(&mut self, routes: &Vec<RouteEntry>)
        ensures
            final(self).deep_view() == (MockBridgeView {
                routes: routes@,
                ..old(self).deep_view()
            }),
    {
        self.state.routes = copy_route_entries(routes);
    }

    /// Destroys the bridge.
    pub fn destroy(&mut self)
        ensures
            final(self).deep_view() == (MockBridgeView {
                destroyed: true,
                ..old(self).deep_view()
            }),
    {
        self.state.destroyed = true;
    }

    /// What was done to the bridge.
    pub fn snapshot(&self) -> (r: MockBridgeState)
        ensures
            r.ports.deep_view() == self.deep_view().ports,
            r.routes@ == self.deep_view().routes,
            r.destroyed == self.deep_view().destroyed,
    {
        MockBridgeState {
            ports: text::copy_texts(&self.state.ports),
            routes: copy_route_entries(&self.state.routes),
            destroyed: self.state.destroyed,
        }
    }
}

/// Adding a port twice, or removing one twice, is the same as doing it once;
/// and removing a port that was just added leaves the others.
pub proof fn law_ports_are_idempotent(ports: Seq<Seq<char>>, tap: Seq<char>)
    ensures
        with_port(with_port(ports, tap), tap) == with_port(ports, tap),
        ports.filter(other_than(tap)).filter(other_than(tap)) == ports.filter(other_than(tap)),
        with_port(ports, tap).filter(other_than(tap)) == ports.filter(other_than(tap)),
{
    let keep = other_than(tap);
    if !ports.contains(tap) {
        assert(ports.push(tap).last() == tap);
        assert(ports.push(tap).contains(tap));
        reveal(Seq::filter);
        assert(ports.push(tap).drop_last() =~= ports);
    }
    lemma_filter_again(ports, keep);
}

proof fn lemma_filter_again(s: Seq<Seq<char>>, keep: spec_fn(Seq<char>) -> bool)
    ensures
        s.filter(keep).filter(keep) == s.filter(keep),
    decreases s.len(),
{
    reveal(Seq::filter);
    if s.len() > 0 {
        lemma_filter_again(s.drop_last(), keep);
        let f = s.drop_last().filter(keep);
        if keep(s.last()) {
            assert(f.push(s.last()).drop_last() =~= f);
        }
    }
}

// ── The platform ─────────────────────────────────────────────────────────
/// A platform that remembers what was created on it.
#[derive(Debug)]
pub struct MockPlatform {
    pub taps: Vec<MockTap>,
    pub bridges: Vec<MockBridge>,
}

impl MockPlatform {
    /// A platform without devices.
    pub fn new() -> (r: MockPlatform)
        ensures
            r.taps.deep_view() == Seq::<MockTapView>::empty(),
            r.bridges.deep_view() == Seq::<MockBridgeView>::empty(),
    {
        let r = MockPlatform { taps: Vec::new(), bridges: Vec::new() };
        assert(r.taps.deep_view() =~= Seq::<MockTapView>::empty());
        assert(r.bridges.deep_view() =~= Seq::<MockBridgeView>::empty());
        r
    }

    /// Creates a TAP, and gives its place among those that were created.
    pub fn create_tap(&mut self, name: &str, ip: Option<IpNet>) -> (r: usize)
        ensures
            r == old(self).taps.len(),
            final(self).taps.deep_view() == old(self).taps.deep_view().push(fresh_tap(name@, ip)),
            final(self).bridges == old(self).bridges,
    {
        let ghost before = self.taps.deep_view();
        let mut tap = MockTap::new(name);
        tap.set_ip(ip);
        let n: usize = self.taps.len();
        self.taps.push(tap);
        assert(self.taps.deep_view() =~= before.push(fresh_tap(name@, ip)));
        n
    }

    /// Creates a bridge, and gives its place among those that were created.
    pub fn create_bridge(&mut self, name: &str) -> (r: usize)
        ensures
            r == old(self).bridges.len(),
            final(self).bridges.deep_view() == old(self).bridges.deep_view().push(
                MockBridgeView {
                    name: name@,
                    ports: Seq::empty(),
                    routes: Seq::empty(),
                    destroyed: false,
                },
            ),
            final(self).taps == old(self).taps,
    {
        let ghost before = self.bridges.deep_view();
        let n: usize = self.bridges.len();
        let b = MockBridge::new(name);
        self.bridges.push(b);
        assert(self.bridges.deep_view() =~= before.push(b.deep_view()));
        n
    }

    /// The TAP that was created last, if any.
    pub fn last_tap(&self) -> (r: Option<&MockTap>)
        ensures
            match r {
                Some(t) => self.taps.len() > 0 && *t == self.taps@.last(),
                None => self.taps.len() == 0,
            },
    {
        let n: usize = self.taps.len();
        if n == 0 {
            None
        } else {
            Some(&self.taps[n - 1])
        }
    }

    /// The bridge that was created last, if any.
    pub fn last_bridge(&self) -> (r: Option<&MockBridge>)
        ensures
            match r {
                Some(b) => self.bridges.len() > 0 && *b == self.bridges@.last(),
                None => self.bridges.len() == 0,
            },
    {
        let n: usize = self.bridges.len();
        if n == 0 {
            None
        } else {
            Some(&self.bridges[n - 1])
        }
    }

    /// How many TAPs were created.
    pub fn taps_count(&self) -> (r: usize)
        ensures
            r == self.taps.len(),
    {
        self.taps.len()
    }
}

/// A bridge has a port after it was added, and not after it was removed; the
/// other ports stay.
pub proof fn law_ports_come_and_go(ports: Seq<Seq<char>>, tap: Seq<char>, other: Seq<char>)
    ensures
        with_port(ports, tap).contains(other) <==> ports.contains(other) || other == tap,
        ports.filter(other_than(tap)).contains(other) <==> ports.contains(other) && other != tap,
{
    broadcast use vstd::seq_lib::lemma_seq_contains_after_push;

    crate::seqs::lemma_filter_from(ports, other_than(tap));
    let left = ports.filter(other_than(tap));
    if left.contains(other) {
        let i = choose|i: int| 0 <= i < left.len() && left[i] == other;
        assert(ports.contains(left[i]) && other_than(tap)(left[i]));
    }
    if ports.contains(other) && other != tap {
        crate::seqs::lemma_filter_keeps(ports, other_than(tap), other);
    }
}

} // verus!
