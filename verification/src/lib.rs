//! Jotline: the shared wire contracts of the local project-notes service and the
//! decision logic of its domain server, with their contracts proved by Verus.

pub mod capture;
pub mod common;
pub mod entities;
pub mod error;
pub mod gendoc;
pub mod ids;
pub mod ipc;
pub mod json;
pub mod notes;
pub mod server;
pub mod stream;
pub mod text;
pub mod tools;
