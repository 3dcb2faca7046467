//! Capability bits of the handshake. All are reserved: senders emit 0, and
//! receivers ignore bits they do not know.
use vstd::prelude::*;

verus! {

/// A transport wrapped in Noise XX.
pub const NOISE: u32 = 1;

/// A transport wrapped in TLS.
pub const TLS: u32 = 2;

/// Live packet capture over the control channel.
pub const PCAP_STREAM: u32 = 4;

} // verus!
