//! Distributed trace context: a stack of active spans whose guards may be
//! released in any order, a fixed-size binary codec for span contexts, and
//! the reconstruction of the span tree from a flat set of finished spans.

pub mod autotrace;
pub mod sort_key;
pub mod span;
pub mod span_map;
pub mod span_context;
pub mod span_wrap;
pub mod stack;
pub mod structured;
pub mod tracer_console;
pub mod utils;
