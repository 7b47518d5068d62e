//! Batch conversion of interface-definition files: path classification,
//! mirrored tree walking, per-file outcome handling and identifier naming.

pub mod batch;
pub mod error;
pub mod mode;
pub mod names;
pub mod paths;
