use vstd::prelude::*;

verus! {

/// Tri-state match flag used by semi, anti and mark joins.
#[derive(Clone, Copy, Debug, PartialEq, Eq, Structural)]
pub enum MarkerKind {
    True,
    False,
    Null,
}

/// Position of a marker in the order `False < Null < True`.
pub open spec fn marker_rank(m: MarkerKind) -> int {
    match m {
        MarkerKind::False => 0,
        MarkerKind::Null => 1,
        MarkerKind::True => 2,
    }
}

/// The marker after one evaluated row of the non-equi predicate:
/// an unknown result turns `False` into `Null`, a true result gives `True`,
/// a false result changes nothing.
pub open spec fn marker_after(m: MarkerKind, result: Option<bool>) -> MarkerKind {
    match result {
        None => if m == MarkerKind::False { MarkerKind::Null } else { m },
        Some(true) => MarkerKind::True,
        Some(false) => m,
    }
}

/// A marker only moves up: `False -> Null -> True` or `False -> True`.
pub open spec fn marker_moves_up(before: MarkerKind, after: MarkerKind) -> bool {
    marker_rank(before) <= marker_rank(after)
}

/// One predicate result never moves a marker down, and `True` is kept.
pub proof fn lemma_marker_after_monotone(m: MarkerKind, result: Option<bool>)
    ensures
        marker_moves_up(m, marker_after(m, result)),
        m == MarkerKind::True ==> marker_after(m, result) == MarkerKind::True,
{
}

/// Executable form of `marker_after`.
pub fn promote_marker(m: MarkerKind, result: Option<bool>) -> (r: MarkerKind)
    ensures
        r == marker_after(m, result),
{
    match result {
        None => {
            if m == MarkerKind::False {
                MarkerKind::Null
            } else {
                m
            }
        },
        Some(true) => MarkerKind::True,
        Some(false) => m,
    }
}

} // verus!
