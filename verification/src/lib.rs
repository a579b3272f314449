//! Parsing of image-operation programs from command-line tokens and scripts.
//!
//! A program is an ordered list of instructions: image operations, modifiers
//! of the environment in which an operation runs, and marks for foreign
//! tokens that were passed over. It is written either as command-line
//! arguments (`--blur 1.0 --flip-horizontal`) or as a script
//! (`blur 1; flip-horizontal;`).
//!
//! * [`numbers`] coerces tokens into typed numeric values.
//! * [`op`] and [`modifier`] are the catalogs of operations and modifiers.
//! * [`syntax`] tells flags, modes and the boundaries between instructions.
//! * [`source`] is the token source with its look-ahead.
//! * [`parser`] decodes one instruction at a time and senses the mode.
//! * [`program`] assembles the decoded items into a program.
//! * [`cli_ops`] and [`script`] parse command-line arguments and scripts.
//! * [`operations`] reads the operations of the first script language.
//! * [`procedure`] holds the settings of a run.
//! * [`laws`] states what holds of every input.

pub mod cli_ops;
pub mod errors;
pub mod laws;
pub mod modifier;
pub mod numbers;
pub mod op;
pub mod operations;
pub mod parser;
pub mod procedure;
pub mod program;
pub mod script;
pub mod source;
pub mod syntax;
pub mod text;

use vstd::prelude::*;

verus! {

/// The name of this tool.
pub fn get_tool_name() -> (name: &'static str)
    ensures
        name@ == "sic"@,
{
    "sic"
}

} // verus!
