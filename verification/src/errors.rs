use vstd::prelude::*;

verus! {

/// Failures of the routing model proper.
#[derive(Debug, Clone, Copy, PartialEq, Eq, Structural)]
pub enum ModelError {
    /// An argument violated a stated precondition, e.g. a departure day
    /// outside the planning period.
    PreconditionViolation,
    /// Adding a visit would push the deck load above the assigned
    /// vessel's deck capacity.
    CapacityExceeded,
    /// A distance lookup or matrix update used an index outside the
    /// node range.
    IndexOutOfRange,
}

/// Failures while adopting already-parsed records into the catalogue.
#[derive(Debug, Clone, Copy, PartialEq, Eq, Structural)]
pub enum IngestionError {
    /// The record set was empty where at least one record was required.
    EmptyInput,
    /// A textual field did not match its expected shape.
    MalformedField,
}

} // verus!
