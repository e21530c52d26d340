//! Network inventory engine: discovery of interfaces, listening ports,
//! container networks, firewall rules and routes from the textual and JSON
//! output of system tools, with normalization and port/interface correlation.
//!
//! Running the tools is the operating environment's business; the engine
//! consumes their outcomes as plain values and is verified end to end.

pub mod firewall;
pub mod jsontext;
pub mod network;
pub mod routing;
pub mod runner;
pub mod strutil;
