//! Output formats for collated stack traces.

use vstd::prelude::*;

verus! {

/// How collated stack traces are rendered.
#[derive(Clone, Copy, PartialEq, Eq, Structural, Debug)]
pub enum CollateFormat {
    /// One line per distinct stack, suitable for flame-graph scripts.
    Collapsed,
    /// A layout resembling `perf script`.
    PerfLike,
}

} // verus!
