//! The `/v1/responses` route: reading requests, preparing what is sent upstream, and translating
//! what comes back.

pub mod completed;
pub mod completion_laws;
pub mod downstream;
pub mod probes;
pub mod route;
pub mod session;
pub mod sse;
pub mod stream_laws;
pub mod summary_laws;
pub mod trace;
pub mod translation;
pub mod upstream;
pub mod virtual_tools;
pub mod visible;
