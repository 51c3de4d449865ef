//! Verified core of a monitor for Corsair AXi power supplies: the PMBus
//! LINEAR11 number format, the SMBus bridge framing, the readout protocol as a
//! state machine, and the monitor's history and key handling.

pub mod linear11;
pub mod frame;
pub mod readings;
pub mod text;
pub mod protocol;
pub mod readout;
pub mod psu;
pub mod monitor;
pub mod layout;
