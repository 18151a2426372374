//! The core data model and wire encoding of a distributed-tracing
//! context: trace and span identifiers, the textual propagation format
//! that carries them over request headers, the span lifecycle from open
//! span to finalized record, and the resource labels that tag spans.
pub mod attributes;
pub mod context;
pub mod hex;
pub mod ids;
pub mod key;
pub mod registry;
pub mod resources;
pub mod span;
pub mod span_data;
pub mod status;
pub mod text;
pub mod text_format;
pub mod time;
pub mod trace_state;
pub mod tracer;
pub mod unit;
