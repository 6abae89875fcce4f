//! Emulation of a Stackmat-style competition timer: the nine-byte packets it
//! sends over a serial line, the driver that pushes them through a sink that
//! may take partial writes, and a buffer that gathers received bytes into
//! records.

pub mod capture;
pub mod digits;
pub mod packet;
pub mod session;
pub mod state;
pub mod transmit;
