//! A tabular projection engine: it homogenizes ordered collections of named
//! scalar values into a uniform two-dimensional grid of renderable cells,
//! reconciles column-major and row-major source shapes by transposition, and
//! attaches a header row aligned with the source names.
//!
//! The finished [`table::TextTable`] carries proved invariants: every row,
//! the header included, has the same width; row and column order mirror the
//! input; names stay aligned with their data. The finished grid can be handed
//! to the `comfy_table` backend through [`display`].

pub mod backend;
pub mod cells;
pub mod display;
pub mod fields;
pub mod inner_named_table;
pub mod outer_named_table;
pub mod table;
