//! Register-protocol engine for a line of networked appliances.
//!
//! The library covers the protocol logic of the bridge: a bit-packed
//! tag-length-value codec, a checksum-framed packet format, the per-model
//! field registry that translates between raw register values and named
//! property values, the per-device register cache and dispatch engine, and
//! the provisioning state machine of the device manager.  All I/O (the
//! message broker, the hub connection, configuration loading) stays outside;
//! the engine consumes plain values and returns the messages to publish as
//! plain values.

pub mod cache;
pub mod config;
pub mod crc16;
pub mod device;
pub mod device_manager;
pub mod envelope;
pub mod frame;
pub mod hexutil;
pub mod rac_056905_ww;
pub mod text;
pub mod tlv;

pub use tlv::{build_tlv, parse_tlv, Tlv};
