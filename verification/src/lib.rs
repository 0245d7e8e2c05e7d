//! A tabular rendering engine and the disk-listing pipeline built on it:
//! columns with computed widths, rows of keyed display text, per-cell
//! render hooks, and the filter, sort and totals steps that turn raw
//! per-volume metrics into an aligned, colorized text table.

use vstd::prelude::*;

verus! {

/// The subcommands the tool understands; the disk listing carries its
/// filter, sort and formatting options as fields.
pub enum Commands {
    System {},
    Cpu { details: bool },
    Memory {},
    Disk {
        all: bool,
        sort: String,
        exclude: String,
        total: bool,
        human_readable: bool,
        si: bool,
        block_size: String,
    },
}

} // verus!
pub mod common;
pub mod disk;
pub mod laws;
pub mod style;
pub mod sys_info;
pub mod table;
pub mod text;
