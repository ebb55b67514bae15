//! Ingestion of climbing areas and their weather.
//!
//! - [`json`]: JSON documents as trees with a mathematical view, read from bytes.
//! - [`calendar`]: dates and local times in their fixed text formats.
//! - [`weather`]: the normalized weather record and its decoding from provider payloads.
//! - [`upstream`]: writing a record back in the provider's shape; decoding gives it back.
//! - [`area`]: areas as the area source lists them and as the cache stores them.
//! - [`cache`]: the writes that refresh and clear the area cache, over a model of the cache.
//! - [`pipeline`]: the per-area steps of an ingestion run and the run's summary.
pub mod area;
pub mod cache;
pub mod calendar;
pub mod json;
pub mod pipeline;
pub mod upstream;
pub mod weather;
