//! Lowering of raw per-compilation-unit analysis records into a single
//! cross-unit navigable index.
//!
//! The pass assigns each unit a small stable global number, translates
//! compiler-local identifiers into packed 32-bit global identifiers, and
//! stitches definitions and references together across units processed in
//! sequence, resolving each reference only against the current unit and the
//! units already merged.

pub mod analysis;
pub mod laws;
pub mod lowering;
pub mod raw;
pub mod span;
pub mod tables;
