use vstd::prelude::*;

verus! {

/// Plan of `DROP STAGE`.
#[derive(Clone, Debug, PartialEq, Eq)]
pub struct DropStagePlan {
    pub if_exists: bool,
    pub name: String,
}

} // verus!
