//! The client: its controller, command line and admin socket.
pub mod app;
pub mod conn;
pub mod daemon;
pub mod dispatch;
pub mod effects;
pub mod repl;
