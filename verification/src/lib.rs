//! A code generator for a small imperative source language with
//! procedures, targeting a linear pseudo-assembly for a register/memory
//! virtual machine. The syntax tree comes from an external parser; this
//! crate walks it, allocates storage, checks use/definition rules,
//! expands call sites, and emits a flat instruction stream with relative
//! branches resolved to absolute targets at print time.
pub mod ast;
pub mod compile;
pub mod emitter;
pub mod error;
pub mod instruct;
pub mod names;
pub mod render;
pub mod report;
pub mod table;
