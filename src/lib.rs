//! A metrics-scraping agent for a session-authenticated controller API:
//! configuration of the queries to run, session bookkeeping, the bounded
//! fan-out of one collection pass, and the routing of inbound requests.

pub mod text;
pub mod config;
pub mod collect;
pub mod client;
pub mod route;
