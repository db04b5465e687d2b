//! Crash interception policy: matching captured traces against a signal
//! configuration, bounded frame capture, trace rendering and the bookkeeping
//! of the handlers that were active before interception.

pub mod text;
pub mod policy;
pub mod trace;
pub mod capture;
pub mod registry;
pub mod state;
pub mod payload;
