//! Cache-aside market data: the upstream rate limiter, the decisions taken for each
//! request around the cache and the upstream provider, and the pure operations on
//! cached token records.

pub mod rate_gate;
pub mod text;
pub mod catalog;
pub mod policy;
pub mod cache;
