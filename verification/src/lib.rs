//! TimeFusion core: a multi-tenant, append-oriented store for OpenTelemetry
//! logs and spans. This crate holds the verified logic of the project
//! catalog, the routing table, the write coordinator and the wire front end.

pub mod auth;
pub mod database;
pub mod error;
pub mod ingest;
pub mod params;
pub mod query;
pub mod routing;
pub mod schema;
pub mod service;
pub mod session;
pub mod text;
pub mod wire;
