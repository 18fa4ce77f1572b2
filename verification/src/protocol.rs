//! The wire protocol: framing, field syntax, and the typed command and
//! response values exchanged with the bus hardware.

pub mod codec;
pub mod decoder;
pub mod encoder;
pub mod text;
