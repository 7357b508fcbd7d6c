use std::sync::atomic::AtomicBool;
use vstd::prelude::*;
use crate::join::hash_table::RowHashTable;
use crate::join::marker::MarkerKind;
use crate::join::row::RowPtr;
use crate::join::row::RowSpace;

verus! {

/// Default bound on the number of rows in one output block.
pub const JOIN_MAX_BLOCK_SIZE: usize = 65536;

/// The join semantics a probe routine implements.
#[derive(Clone, Copy, Debug, PartialEq, Eq, Structural)]
pub enum JoinType {
    Inner,
    Left,
    Right,
    Full,
    LeftSemi,
    LeftAnti,
    RightSemi,
    RightAnti,
    LeftMark,
    RightMark,
    Single,
    Cross,
}

/// Planner-supplied configuration of one hash join.
#[derive(Clone, Copy, Debug)]
pub struct HashJoinDesc {
    pub join_type: JoinType,
    /// Keys of a decorrelated subquery are looked up even where they are NULL.
    pub from_correlated_subquery: bool,
    /// Upper bound on the rows of each output block; positive.
    pub max_block_size: usize,
    /// The build side holds a NULL in its equi-key column (mark joins).
    pub has_null: bool,
}

/// Per-batch probe scratch state.
#[derive(Debug)]
pub struct ProbeState {
    /// Validity of each probe key; an invalid key never matches.
    pub valids: Option<Vec<bool>>,
    /// One marker per probe row, for mark joins.
    pub markers: Option<Vec<MarkerKind>>,
}

/// Accumulators shared by all probe workers of one join.
#[derive(Debug)]
pub struct JoinState {
    /// Build rows seen by a full outer join; a dummy row for an unmatched probe row.
    pub build_indexes: Vec<RowPtr>,
    /// Partly filled output batches held back until the probe side is finished.
    pub rest_batches: Vec<crate::join::batch::ProbedBatch>,
}

/// The probe side of a hash join: the build rows, the configuration and the
/// cancellation flag.
#[derive(Debug)]
pub struct JoinHashTable {
    pub desc: HashJoinDesc,
    pub row_space: RowSpace,
    pub interrupt: AtomicBool,
}

impl ProbeState {
    /// Probe state of a mark join over `num_rows` probe rows: every marker
    /// starts at `Null` when the build side holds a NULL key, else at `False`.
    pub fn for_mark_join(valids: Option<Vec<bool>>, num_rows: usize, has_null: bool) -> (r: Self)
        ensures
            r.valids == valids,
            r.markers is Some,
            r.markers->0@.len() == num_rows,
            forall|i: int|
                0 <= i < num_rows ==> #[trigger] r.markers->0@[i] == if has_null {
                    MarkerKind::Null
                } else {
                    MarkerKind::False
                },
    {
        let start = if has_null {
            MarkerKind::Null
        } else {
            MarkerKind::False
        };
        let mut markers: Vec<MarkerKind> = Vec::new();
        let mut i: usize = 0;
        while i < num_rows
            invariant
                i <= num_rows,
                markers@.len() == i,
                forall|k: int| 0 <= k < i ==> #[trigger] markers@[k] == start,
            decreases num_rows - i,
        {
            markers.push(start);
            i += 1;
        }
        ProbeState { valids, markers: Some(markers) }
    }
}

/// The probe keys are valid where `valids` says so; without `valids` all are.
pub open spec fn key_is_valid(valids: Option<Vec<bool>>, i: int) -> bool {
    match valids {
        Some(v) => v@[i],
        None => true,
    }
}

/// What the table yields for probe row `i`: nothing for an invalid key
/// (unless the join comes from a correlated subquery), else the rows of the key.
pub open spec fn probe_lookup(
    table: Map<u64, Seq<RowPtr>>,
    keys: Seq<u64>,
    valids: Option<Vec<bool>>,
    correlated: bool,
    i: int,
) -> Option<Seq<RowPtr>> {
    if !correlated && !key_is_valid(valids, i) {
        None
    } else if table.contains_key(keys[i]) {
        Some(table[keys[i]])
    } else {
        None
    }
}

/// The validity vector, if present, covers all `n` probe rows.
pub open spec fn valids_cover(valids: Option<Vec<bool>>, n: nat) -> bool {
    match valids {
        Some(v) => v@.len() >= n,
        None => true,
    }
}

/// Each key's row list has a length that fits in `u32`.
pub open spec fn table_rows_fit(table: Map<u64, Seq<RowPtr>>) -> bool {
    forall|k: u64| #[trigger] table.contains_key(k) ==> table[k].len() <= u32::MAX
}

/// Looks probe row `i` up in `table`, as `probe_lookup` describes.
pub fn probe_key<'a>(
    table: &'a RowHashTable,
    keys: &[u64],
    valids: &Option<Vec<bool>>,
    correlated: bool,
    i: usize,
) -> (r: Option<&'a Vec<RowPtr>>)
    requires
        table.wf(),
        i < keys@.len(),
        valids_cover(*valids, keys@.len()),
    ensures
        match r {
            Some(v) => probe_lookup(table@, keys@, *valids, correlated, i as int) == Some(v@),
            None => probe_lookup(table@, keys@, *valids, correlated, i as int) is None,
        },
{
    if !correlated {
        if let Some(v) = valids {
            if !v[i] {
                return None;
            }
        }
    }
    table.entry(keys[i])
}

} // verus!
