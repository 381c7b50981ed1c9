//! The output format for printed error reports.

use vstd::prelude::*;

verus! {

/// Controls the output format of a printed error report: a compact list,
/// suited to log files, or a box-drawn table, suited to terminals.
#[derive(Debug, PartialEq, Eq, Structural, Clone, Copy)]
pub enum ErrorPrintMode {
    /// A compact list: a header with the error count, then one line per
    /// leaf error.
    List,
    /// A box-drawn table with one row per leaf error and three columns:
    /// field path, key names, failure details.
    Table,
}

} // verus!
