//! Build-time failures.
//!
//! Every condition here is fatal at generation time: the build aborts and no
//! partial index is ever produced. Runtime conditions (a missing key, a
//! content-type mismatch) are never errors; they surface as absent results.

use vstd::prelude::*;

verus! {

/// A fatal generation-time failure.
#[derive(Clone, Copy, Debug, PartialEq, Eq, Structural)]
pub enum BuildError {
    /// The scan discovered zero files; an empty embed is rejected rather
    /// than silently producing an empty index.
    EmptyFileSet,
    /// A scanned path does not have the scan root as a prefix.
    NotUnderRoot,
    /// The generator was invoked with no argument at all.
    EmptyArgument,
    /// The generator's single argument is not a string literal.
    NotStringLiteral,
    /// The generator was invoked with more than one argument token.
    MultipleArguments,
}

} // verus!
