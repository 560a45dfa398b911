//! A Wavefront-style geometry importer: a verified grammar for the
//! geometry and material text formats, an interpreter that folds the
//! directive stream into deduplicated, fan-triangulated vertex buffers,
//! a material resolver with cross-file name binding, and a typed error
//! taxonomy with rendered diagnostics. Scalars are carried as IEEE 754
//! single-precision bit patterns; the software float arithmetic behind
//! them is the only trusted boundary.

pub mod def;
pub mod diag;
pub mod laws;
pub mod loader;
pub mod parser;
pub mod scalar;
