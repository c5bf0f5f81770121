//! The domain server's logic: authorization, error mapping, request handling decisions,
//! storage plans and the sidecar boot sequence.

pub mod auth;
pub mod api_error;
pub mod handlers;
pub mod storage;
pub mod config;
pub mod sidecar;
