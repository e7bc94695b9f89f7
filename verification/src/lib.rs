//! LAN pairing service: binds a session to a network-reachable address,
//! publishes that address as a scannable monochrome bitmap, and accepts a
//! single informational handshake from a remote device.
//!
//! The crate holds the pure, verified core: the shared session record, the
//! address-to-URL resolution, the scannable-code bitmap rendering, and the
//! fixed handshake/header values served over HTTP. Listener binding, request
//! plumbing and window rendering are the callers' business.

pub mod encoder;
pub mod resolver;
pub mod server;
pub mod session;
