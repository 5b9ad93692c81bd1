//! Core of a transport-agnostic, event-driven network engine.
//!
//! Applications mount adapters (TCP, framed TCP, UDP, WebSocket) behind a
//! uniform interface, drive them with `listen` / `connect` / `send` /
//! `remove`, and consume a merged stream of network events, user signals and
//! lifecycle events from a single queue.

pub mod addr;
pub mod driver;
pub mod endpoint;
pub mod engine;
pub mod events;
pub mod frame;
pub mod register;
pub mod resource_id;
pub mod transport;
pub mod urls;
pub mod ws;

pub use transport::Transport;
