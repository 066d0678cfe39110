//! Rendering core for structured log records: quote selection for string
//! values, dotted key-path flattening, hierarchical field filtering, and
//! single-line record emission into a caller-supplied byte buffer.

pub mod filter;
pub mod format;
pub mod fmtbuf;
pub mod keypath;
pub mod json;
pub mod model;
pub mod strfmt;
pub mod mask;
