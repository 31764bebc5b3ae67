//! Build-graph generation for a kernel source tree: discovery decisions for
//! per-directory build descriptions, translation of each description into
//! compile and link statements, header-dependency parsing of compiler
//! diagnostics, and serialization of the resulting graph to a ninja build
//! file.
//!
//! All path mapping, statement construction and emission here is pure and
//! verified; the surrounding process (filesystem walk, description
//! deserialization, compiler invocation, artifact write) lives outside the
//! library and hands in plain values.

pub mod build_spec;
pub mod ninja;
pub mod util;
