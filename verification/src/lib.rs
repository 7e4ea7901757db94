//! Decisions, parsers and text builders of a Linux Wi-Fi hotspot manager.
pub mod blocklist;
pub mod channel;
pub mod clock;
pub mod devices;
pub mod display;
pub mod hotspot;
pub mod launch;
pub mod numeric;
pub mod probe;
pub mod start;
pub mod text;
pub mod units;
pub mod watchdog;
