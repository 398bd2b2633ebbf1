//! The node protocol: control frames, messages, negotiation, connection states and trust.

pub mod frame;
pub mod negotiation;
pub mod state;
pub mod trust;
pub mod wire;
pub mod wire_laws;
