use vstd::prelude::*;

verus! {

/// Top-level error in the main application flow: it aborts the run and is
/// reported to the user.
#[derive(Debug, Clone, Copy, PartialEq, Eq, Structural)]
pub struct AppError;

} // verus!
