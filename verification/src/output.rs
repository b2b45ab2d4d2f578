//! Options for printing.

use vstd::prelude::*;

verus! {

/// How a table is printed.
#[derive(Debug, Clone, Copy, PartialEq, Eq)]
pub struct PrintTableOpts {
    /// The width that the table may take, if it is limited.
    pub max_width: Option<usize>,
}

} // verus!
