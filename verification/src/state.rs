//! Persisted state: the record schema and its on-chain byte layout.

pub mod twitter;
