//! The server around the hub: what admin requests, command lines, client
//! frames and HTTP requests mean.
pub mod conn;
pub mod daemon;
pub mod dispatch;
pub mod render;
pub mod repl;
pub mod statics;
pub mod web;
pub mod ws;
