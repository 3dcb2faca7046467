//! Bifrost: an L2-over-TCP virtual LAN.
pub mod addr;
pub mod admin;
pub mod caps;
pub mod client;
pub mod codec;
pub mod config;
pub mod device;
pub mod events;
pub mod frame;
pub mod hub;
pub mod ids;
pub mod migration;
pub mod net;
pub mod routes;
pub mod seqs;
pub mod server;
pub mod session;
pub mod staging;
pub mod text;
pub mod uuids;
