//! Threadline bridges local `/v1/responses` requests to Codex upstream sessions.

pub mod auth;
pub mod cli;
pub mod codex_ws;
pub mod config;
pub mod errors;
pub mod http;
pub mod identity;
pub mod jobs;
pub mod json;
pub mod models;
pub mod registry;
pub mod registry_laws;
pub mod responses;
pub mod text;
pub mod tools;
pub mod ws_pump;
pub mod ws_pump_laws;
