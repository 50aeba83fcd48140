//! Device-and-resource runtime for a hardware-access broker.
//!
//! The crate models the synchronous core of the broker: resource
//! properties and matching, the monotonically-numbered resource
//! registries with their change logs, the per-device slot-binding
//! engine, the mode-transition sequencer, the framing state machines
//! for console input and firmware upload streams, and the service
//! facade that dispatches requests over those parts.  Everything here
//! is verified; the asynchronous plumbing (channels, timers, sockets,
//! provider drivers) lives outside the library and drives these
//! functions.

pub mod device;
pub mod properties;
pub mod registry;
pub mod service;
pub mod slots;
pub mod stream;
pub mod upload;
