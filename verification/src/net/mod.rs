//! TAP devices and bridges: what can be decided without a kernel.
pub mod linux;
pub mod mock;
pub mod null;
