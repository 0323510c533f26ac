//! Acquisition layer of a system probe: decoding of instrumentation
//! timestamps, decoding of configuration-store text buffers, per-row field
//! maps of instrumentation queries, the decisions of a query run, and the
//! record builders that consume them.

pub mod calendar;
pub mod decimal;
pub mod error;
pub mod field_map;
pub mod query;
pub mod records;
pub mod registry_text;
pub mod timestamp;
