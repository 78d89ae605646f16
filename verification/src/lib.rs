//! Turns a plain-text grocery list (one item per line) into a LaTeX document
//! that renders a printable shopping list.
//!
//! The pipeline has three stages, each a pure transformation:
//! lines: the raw file contents are cut into items, one per line;
//! partition: the items are distributed into named buckets, either a single
//! "All" bucket or an additional alternating two-way split;
//! render: the buckets become sections of a LaTeX source document.
//!
//! Reading the input file and writing the `.tex` file are left to the
//! program around the library; everything here works on plain values.

mod dates;
pub mod errors;
pub mod lines;
pub mod partition;
pub mod paths;
pub mod render;
