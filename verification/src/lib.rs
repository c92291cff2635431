//! Library core of a power-management daemon for a supercapacitor-backed
//! power controller reached over I2C.
//!
//! The crate holds the register codec, the I2C transport with its retry
//! policy, the typed device facade, the firmware-update (DFU) engine, the
//! power-management state machine and the decision logic of the control
//! plane. Process plumbing (sockets, signals, argument parsing) lives in the
//! accompanying application crate.

pub mod bus;
pub mod config;
pub mod control;
pub mod device;
pub mod dfu;
pub mod errors;
pub mod machine;
pub mod protocol;
pub mod types;
