use vstd::prelude::*;

verus! {

/// Failures surfaced by the probe routines.
#[derive(Clone, Copy, Debug, PartialEq, Eq, Structural)]
pub enum JoinError {
    /// The cancellation flag was observed set.
    AbortedQuery,
    /// A scalar-subquery join found more than one build row for a probe row.
    ScalarSubqueryCardinality,
    /// The non-equi predicate could not be evaluated.
    PredicateEvaluation,
    /// An internal invariant was violated (a buffer of the wrong length).
    Internal,
}

} // verus!
