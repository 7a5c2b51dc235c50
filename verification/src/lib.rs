//! Line-level mutations of a text file.
//!
//! A file is modelled as its sequence of lines, split on `'\n'`. The engine
//! inserts, overwrites or deletes single lines, locating the affected line
//! either by a 1-indexed line number or by a regular-expression match against
//! line content. Every operation makes one forward pass and preserves all
//! unaffected lines verbatim, in order, with `'\n'` as the sole separator.
pub mod api;
pub mod engine;
pub mod laws;
pub mod lines;
pub mod ops;
pub mod pattern;

pub use api::{
    add_after_pattern, add_before_pattern, add_via_line_number, overwrite_pattern,
    overwrite_via_line_number, remove_after_pattern, remove_before_pattern,
    remove_overwrite_pattern, remove_via_line_number, run_mutation, CLIArguments, LineMutation,
    MutationError, MutationOutcome, PatternMutation, What, Where, WhereCommands,
};
pub use engine::{EditResult, PreviewEntry};
pub use lines::{join_lines, split_lines};
