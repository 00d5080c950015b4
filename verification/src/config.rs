//! Per-backend credential and option resolution: a string-keyed option
//! map with case-insensitive aliases, and environment-variable fallback.

pub mod aws;
pub mod azure;
pub mod google;
