//! Protocol engine for a bus of addressable lighting-control modules behind a
//! serial or TCP byte stream.
//!
//! The crate covers the frame codec, the correlation of pending requests with
//! inbound responses (including multi-frame scene enumeration), the pacing of
//! outbound transmissions, the serialization of bus access through a single
//! worker, and the address-discovery state machine.  All I/O, timers and task
//! plumbing live outside; the library works on plain values and is verified.

pub mod config;
pub mod controller;
pub mod discovery;
pub mod protocol;
pub mod request;
pub mod throttle;
