//! Polling library for an Aranet environmental sensor reached over Bluetooth Low Energy:
//! address codec, reading decoder, characteristic endpoint resolver, and the decision
//! logic of discovery and polling. The radio, the HTTP exporter and the terminal are
//! driven by the caller.
pub mod error;
pub mod address;
pub mod config;
pub mod discovery;
pub mod endpoints;
pub mod metrics;
pub mod pin;
pub mod polling;
pub mod reading;
pub mod text;
