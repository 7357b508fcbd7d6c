use vstd::prelude::*;
use crate::join::batch::OutputBatcher;
use crate::join::batch::ProbedBatch;
use crate::join::batch::batches_full;
use crate::join::batch::expand_pairs;
use crate::join::batch::lemma_concat_probe_member;
use crate::join::batch::lemma_expand_prefix_len;
use crate::join::batch::lemma_expand_push;
use crate::join::batch::concat_build;
use crate::join::batch::concat_probe;
use crate::join::batch::concat_validity;
use crate::join::batch::lemma_concat_append;
use crate::join::batch::lemma_concat_push;
use crate::join::batch::lemma_full_push;
use crate::join::batch::repeat;
use crate::join::desc::JoinHashTable;
use crate::join::desc::ProbeState;
use crate::join::desc::probe_key;
use crate::join::desc::probe_lookup;
use crate::join::desc::table_rows_fit;
use crate::join::desc::valids_cover;
use crate::join::error::JoinError;
use crate::join::hash_table::RowHashTable;
use crate::join::marker::MarkerKind;
use crate::join::marker::lemma_marker_after_monotone;
use crate::join::marker::marker_after;
use crate::join::marker::marker_moves_up;
use crate::join::marker::promote_marker;
use crate::join::row::DataBlock;
use crate::join::row::Scalar;
use crate::join::row::merge_eq_block;
use crate::join::row::RowPtr;
use crate::join::semantics::join_build;
use crate::join::semantics::join_probe;
use crate::join::semantics::join_validity;
use crate::join::semantics::lemma_inner_row_conservation;
use crate::join::semantics::lemma_join_build_grows;
use crate::join::semantics::match_count;
use crate::join::semantics::rows_for;

verus! {

/// The value a marker takes in the output marker column: a `False` marker
/// reads as NULL when the build side holds a NULL key.
pub open spec fn marker_value(m: MarkerKind, has_null: bool) -> Scalar {
    match m {
        MarkerKind::True => Scalar::Boolean(true),
        MarkerKind::Null => Scalar::Null,
        MarkerKind::False => if has_null {
            Scalar::Null
        } else {
            Scalar::Boolean(false)
        },
    }
}

/// The marker a probe row starts with when a non-equi predicate is evaluated:
/// `Null` where one of the probe row's own columns is NULL, else `False`.
///
/// This seeding belongs to the predicate variant only: there the probe row's
/// NULL values can make the predicate unknown for every match, so "no match"
/// cannot be told apart from "unknown". The variant without a predicate takes
/// the markers from `ProbeState`, seeded from the build side's `has_null`
/// (`ProbeState::for_mark_join`), and the marker column of both variants reads
/// a remaining `False` as NULL when the build side holds a NULL key.
pub open spec fn initial_marker(input: DataBlock, i: int) -> MarkerKind {
    if exists|c: int| 0 <= c < input.columns@.len() && #[trigger] input.columns@[c]@[i] == Scalar::Null {
        MarkerKind::Null
    } else {
        MarkerKind::False
    }
}

/// `block` is the marker column of `markers` followed by the columns of `input`.
pub open spec fn marker_block_of(
    block: DataBlock,
    markers: Seq<MarkerKind>,
    has_null: bool,
    input: DataBlock,
) -> bool {
    &&& block.wf()
    &&& block.num_rows == markers.len()
    &&& block.columns@.len() == input.columns@.len() + 1
    &&& forall|i: int| 0 <= i < markers.len() ==> #[trigger] block.columns@[0]@[i] == marker_value(markers[i], has_null)
    &&& forall|c: int| 0 <= c < input.columns@.len() ==> #[trigger] block.columns@[c + 1]@ == input.columns@[c]@
}

/// Initial markers of the first `n` probe rows.
pub open spec fn initial_markers(input: DataBlock, n: nat) -> Seq<MarkerKind> {
    Seq::new(n, |i: int| initial_marker(input, i))
}

/// Markers after the predicate results `filter` of the output rows `rows`, in order.
pub open spec fn apply_filter(
    ms: Seq<MarkerKind>,
    rows: Seq<u32>,
    filter: Seq<Option<bool>>,
) -> Seq<MarkerKind>
    decreases rows.len(),
{
    if rows.len() == 0 {
        ms
    } else {
        let prev = apply_filter(ms, rows.drop_last(), filter);
        let p = rows.last() as int;
        prev.update(p, marker_after(prev[p], filter[rows.len() - 1]))
    }
}

/// All row indexes lie below `n`.
pub open spec fn rows_below(rows: Seq<u32>, n: nat) -> bool {
    forall|j: int| 0 <= j < rows.len() ==> #[trigger] rows[j] < n
}

/// Every pair with a non-zero count names a probe row below `n`.
pub open spec fn pairs_below(pairs: Seq<(u32, u32)>, n: nat) -> bool {
    forall|j: int| 0 <= j < pairs.len() && (#[trigger] pairs[j]).1 > 0 ==> pairs[j].0 < n
}

/// Marker monotonicity: applying predicate results only moves markers up
/// (`False -> Null -> True`, or `False -> True`), never away from `True`,
/// and leaves the number of markers unchanged.
pub proof fn lemma_apply_filter_monotone(
    ms: Seq<MarkerKind>,
    rows: Seq<u32>,
    filter: Seq<Option<bool>>,
)
    requires
        rows_below(rows, ms.len()),
    ensures
        apply_filter(ms, rows, filter).len() == ms.len(),
        forall|i: int|
            0 <= i < ms.len() ==> marker_moves_up(ms[i], #[trigger] apply_filter(ms, rows, filter)[i]),
        forall|i: int|
            0 <= i < ms.len() && ms[i] == MarkerKind::True ==> #[trigger] apply_filter(
                ms,
                rows,
                filter,
            )[i] == MarkerKind::True,
    decreases rows.len(),
{
    if rows.len() > 0 {
        let rest = rows.drop_last();
        assert(rows_below(rest, ms.len())) by {
            assert forall|j: int| 0 <= j < rest.len() implies #[trigger] rest[j] < ms.len() by {
                assert(rest[j] == rows[j]);
            }
        }
        lemma_apply_filter_monotone(ms, rest, filter);
        let prev = apply_filter(ms, rest, filter);
        let p = rows.last() as int;
        assert(rows[rows.len() - 1] < ms.len());
        lemma_marker_after_monotone(prev[p], filter[rows.len() - 1]);
        assert forall|i: int| 0 <= i < ms.len() implies marker_moves_up(
            ms[i],
            #[trigger] apply_filter(ms, rows, filter)[i],
        ) by {
            if i == p {
            } else {
                assert(apply_filter(ms, rows, filter)[i] == prev[i]);
            }
        }
    }
}

proof fn lemma_apply_push(ms: Seq<MarkerKind>, rows: Seq<u32>, filter: Seq<Option<bool>>, x: u32)
    ensures
        apply_filter(ms, rows.push(x), filter) == apply_filter(ms, rows, filter).update(
            x as int,
            marker_after(apply_filter(ms, rows, filter)[x as int], filter[rows.len() as int]),
        ),
{
    assert(rows.push(x).drop_last() =~= rows);
}

proof fn lemma_expand_below(pairs: Seq<(u32, u32)>, n: nat)
    requires
        pairs_below(pairs, n),
    ensures
        rows_below(expand_pairs(pairs), n),
    decreases pairs.len(),
{
    if pairs.len() > 0 {
        let rest = pairs.drop_last();
        assert(pairs_below(rest, n)) by {
            assert forall|j: int| 0 <= j < rest.len() && (#[trigger] rest[j]).1 > 0 implies rest[j].0 < n by {
                assert(rest[j] == pairs[j]);
            }
        }
        lemma_expand_below(rest, n);
        let e = expand_pairs(pairs);
        let er = expand_pairs(rest);
        assert forall|j: int| 0 <= j < e.len() implies #[trigger] e[j] < n by {
            if j < er.len() {
                assert(e[j] == er[j]);
            } else {
                assert(pairs[pairs.len() - 1].1 > 0);
            }
        }
    }
}

/// The converse: where all output rows name probe rows below `n`, so does
/// every pair that has rows.
proof fn lemma_below_pairs(pairs: Seq<(u32, u32)>, n: nat)
    requires
        rows_below(expand_pairs(pairs), n),
    ensures
        pairs_below(pairs, n),
    decreases pairs.len(),
{
    if pairs.len() > 0 {
        let rest = pairs.drop_last();
        let e = expand_pairs(pairs);
        let er = expand_pairs(rest);
        assert(rows_below(er, n)) by {
            assert forall|j: int| 0 <= j < er.len() implies #[trigger] er[j] < n by {
                assert(e[j] == er[j]);
            }
        }
        lemma_below_pairs(rest, n);
        assert forall|j: int| 0 <= j < pairs.len() && (#[trigger] pairs[j]).1 > 0 implies pairs[j].0 < n by {
            if j < rest.len() {
                assert(rest[j] == pairs[j]);
            } else {
                assert(e[er.len() as int] == pairs[j].0);
            }
        }
    }
}

/// The marker column of a mark join, one value per marker.
pub fn create_marker_block(has_null: bool, markers: &Vec<MarkerKind>) -> (r: DataBlock)
    ensures
        r.wf(),
        r.num_rows == markers@.len(),
        r.columns@.len() == 1,
        forall|i: int|
            0 <= i < markers@.len() ==> #[trigger] r.columns@[0]@[i] == marker_value(
                markers@[i],
                has_null,
            ),
{
    let mut col: Vec<Scalar> = Vec::new();
    let mut i: usize = 0;
    while i < markers.len()
        invariant
            i <= markers@.len(),
            col@.len() == i,
            forall|k: int| 0 <= k < i ==> #[trigger] col@[k] == marker_value(markers@[k], has_null),
        decreases markers@.len() - i,
    {
        let v = match markers[i] {
            MarkerKind::True => Scalar::Boolean(true),
            MarkerKind::Null => Scalar::Null,
            MarkerKind::False => if has_null {
                Scalar::Null
            } else {
                Scalar::Boolean(false)
            },
        };
        col.push(v);
        i += 1;
    }
    let mut columns: Vec<Vec<Scalar>> = Vec::new();
    columns.push(col);
    DataBlock { columns, num_rows: markers.len() }
}

/// Initial markers of the first `n` probe rows, as `initial_marker` describes.
pub fn init_markers(input: &DataBlock, n: usize) -> (r: Vec<MarkerKind>)
    requires
        input.wf(),
        n <= input.num_rows,
    ensures
        r@.len() == n,
        forall|i: int| 0 <= i < n ==> #[trigger] r@[i] == initial_marker(*input, i),
{
    let mut r: Vec<MarkerKind> = Vec::new();
    let mut i: usize = 0;
    while i < n
        invariant
            input.wf(),
            i <= n,
            n <= input.num_rows,
            r@.len() == i,
            forall|k: int| 0 <= k < i ==> #[trigger] r@[k] == initial_marker(*input, k),
        decreases n - i,
    {
        let mut has_null_value = false;
        let mut c: usize = 0;
        while c < input.columns.len()
            invariant
                input.wf(),
                i < input.num_rows,
                c <= input.columns@.len(),
                has_null_value == exists|d: int|
                    0 <= d < c && #[trigger] input.columns@[d]@[i as int] == Scalar::Null,
            decreases input.columns@.len() - c,
        {
            assert(input.columns@[c as int]@.len() == input.num_rows);
            if input.columns[c][i] == Scalar::Null {
                has_null_value = true;
            }
            c += 1;
        }
        r.push(if has_null_value { MarkerKind::Null } else { MarkerKind::False });
        i += 1;
    }
    r
}

/// Applies the predicate results `filter` of the rows of `batch` to `markers`.
///
/// Fails with `Internal` where `filter` does not have one value per row of the
/// batch or a probe row of the batch has no marker.
pub fn update_markers(
    markers: &mut Vec<MarkerKind>,
    batch: &ProbedBatch,
    filter: &Vec<Option<bool>>,
) -> (r: Result<(), JoinError>)
    requires
        batch.wf(),
    ensures
        r is Ok <==> filter@.len() == batch.len() && pairs_below(
            batch.probe_indexes@,
            old(markers)@.len(),
        ),
        r is Ok ==> final(markers)@ == apply_filter(old(markers)@, batch.probe_rows(), filter@),
        r is Err ==> r->Err_0 == JoinError::Internal && final(markers)@ == old(markers)@,
{
    let ghost pairs = batch.probe_indexes@;
    let ghost ms0 = markers@;
    let filter_len = filter.len();
    if filter_len != batch.build_indexes.len() {
        return Err(JoinError::Internal);
    }
    let mut v: usize = 0;
    while v < batch.probe_indexes.len()
        invariant
            v <= pairs.len(),
            pairs == batch.probe_indexes@,
            markers@ == ms0,
            forall|j: int| 0 <= j < v && (#[trigger] pairs[j]).1 > 0 ==> pairs[j].0 < ms0.len(),
        decreases pairs.len() - v,
    {
        if batch.probe_indexes[v].1 > 0 && batch.probe_indexes[v].0 as usize >= markers.len() {
            return Err(JoinError::Internal);
        }
        v += 1;
    }
    proof {
        lemma_expand_below(pairs, ms0.len());
    }
    let mut index: usize = 0;
    let mut v: usize = 0;
    proof {
        assert(pairs.take(0) =~= Seq::<(u32, u32)>::empty());
    }
    while v < batch.probe_indexes.len()
        invariant
            v <= pairs.len(),
            pairs == batch.probe_indexes@,
            pairs_below(pairs, ms0.len()),
            expand_pairs(pairs).len() == filter@.len(),
            filter@.len() == filter_len,
            index == expand_pairs(pairs.take(v as int)).len(),
            markers@.len() == ms0.len(),
            markers@ == apply_filter(ms0, expand_pairs(pairs.take(v as int)), filter@),
        decreases pairs.len() - v,
    {
        let (row_u, cnt) = batch.probe_indexes[v];
        let row = row_u as usize;
        let ghost done = expand_pairs(pairs.take(v as int));
        proof {
            assert(pairs.take(v as int).push(pairs[v as int]) =~= pairs.take(v + 1));
            lemma_expand_push(pairs.take(v as int), pairs[v as int]);
            lemma_expand_prefix_len(pairs, v + 1);
        }
        let mut c: u32 = 0;
        while c < cnt
            invariant
                c <= cnt,
                cnt > 0 ==> row < ms0.len(),
                cnt == pairs[v as int].1,
                row_u == pairs[v as int].0,
                pairs_below(pairs, ms0.len()),
                v < pairs.len(),
                row == row_u as usize,
                markers@.len() == ms0.len(),
                index == done.len() + c,
                done.len() + cnt <= filter@.len(),
                filter@.len() == filter_len,
                markers@ == apply_filter(ms0, done + repeat(row_u, c as nat), filter@),
            decreases cnt - c,
        {
            let ghost rows = done + repeat(row_u, c as nat);
            proof {
                assert(rows.push(row_u) =~= done + repeat(row_u, (c + 1) as nat));
                lemma_apply_push(ms0, rows, filter@, row_u);
            }
            let m = promote_marker(markers[row], filter[index]);
            markers.set(row, m);
            index += 1;
            c += 1;
        }
        proof {
            assert(done + repeat(row_u, cnt as nat) == expand_pairs(pairs.take(v + 1)));
        }
        v += 1;
    }
    proof {
        assert(pairs.take(pairs.len() as int) =~= pairs);
    }
    Ok(())
}

/// A marker stays where it was for a probe row that `rows` does not name.
proof fn lemma_apply_untouched(ms: Seq<MarkerKind>, rows: Seq<u32>, filter: Seq<Option<bool>>, x: int)
    requires
        rows_below(rows, ms.len()),
        0 <= x < ms.len(),
        forall|j: int| 0 <= j < rows.len() ==> #[trigger] rows[j] as int != x,
    ensures
        apply_filter(ms, rows, filter)[x] == ms[x],
    decreases rows.len(),
{
    if rows.len() > 0 {
        let rest = rows.drop_last();
        assert(rows_below(rest, ms.len())) by {
            assert forall|j: int| 0 <= j < rest.len() implies #[trigger] rest[j] < ms.len() by {
                assert(rest[j] == rows[j]);
            }
        }
        assert forall|j: int| 0 <= j < rest.len() implies #[trigger] rest[j] as int != x by {
            assert(rest[j] == rows[j]);
        }
        lemma_apply_untouched(ms, rest, filter, x);
        lemma_apply_filter_monotone(ms, rest, filter);
        assert(rows[rows.len() - 1] as int != x);
    }
}

/// The markers `m` of the first `n` probe rows have only moved up from `init`,
/// and a probe row without matches kept its initial marker.
pub open spec fn markers_follow(
    init: Seq<MarkerKind>,
    m: Seq<MarkerKind>,
    table: Map<u64, Seq<RowPtr>>,
    keys: Seq<u64>,
    valids: Option<Vec<bool>>,
    correlated: bool,
    n: nat,
) -> bool {
    &&& init.len() == n
    &&& m.len() == n
    &&& forall|i: int| 0 <= i < n ==> marker_moves_up(init[i], #[trigger] m[i])
    &&& forall|i: int|
        0 <= i < n && probe_lookup(table, keys, valids, correlated, i) is None ==> #[trigger] m[i]
            == init[i]
}

/// Markers after the predicate results `fs[j]` of the batches `bs[j]`, in order.
pub open spec fn apply_filters(
    ms: Seq<MarkerKind>,
    bs: Seq<ProbedBatch>,
    fs: Seq<Vec<Option<bool>>>,
) -> Seq<MarkerKind>
    decreases bs.len(),
{
    if bs.len() == 0 {
        ms
    } else {
        apply_filter(
            apply_filters(ms, bs.drop_last(), fs.drop_last()),
            bs.last().probe_rows(),
            fs.last()@,
        )
    }
}

/// The predicate answered every batch `bs[j]` with `fs[j]`, one value per row.
pub open spec fn predicate_answers<F: Fn(&ProbedBatch) -> Result<Vec<Option<bool>>, JoinError>>(
    pred: F,
    bs: Seq<ProbedBatch>,
    fs: Seq<Vec<Option<bool>>>,
) -> bool {
    &&& fs.len() == bs.len()
    &&& forall|j: int|
        0 <= j < bs.len() ==> #[trigger] pred.ensures((&bs[j],), Ok::<Vec<Option<bool>>, JoinError>(fs[j]))
            && fs[j]@.len() == bs[j].len()
}

/// `e` is what the predicate failed with on some batch, or `Internal` after
/// it answered some batch with the wrong number of values.
pub open spec fn predicate_failed<F: Fn(&ProbedBatch) -> Result<Vec<Option<bool>>, JoinError>>(
    pred: F,
    e: JoinError,
) -> bool {
    ||| exists|b: ProbedBatch| #[trigger] pred.ensures((&b,), Err::<Vec<Option<bool>>, JoinError>(e))
    ||| e == JoinError::Internal && exists|b: ProbedBatch, f: Vec<Option<bool>>|
        #[trigger] pred.ensures((&b,), Ok::<Vec<Option<bool>>, JoinError>(f)) && f@.len() != b.len()
}

/// The batches `bs` hold the inner-join rows of the first `n` probe rows, in
/// order, all but the last with exactly `max` rows and the last with fewer.
pub open spec fn mark_batches(
    bs: Seq<ProbedBatch>,
    table: Map<u64, Seq<RowPtr>>,
    keys: Seq<u64>,
    valids: Option<Vec<bool>>,
    correlated: bool,
    n: nat,
    max: nat,
) -> bool {
    &&& bs.len() > 0
    &&& batches_full(bs.drop_last(), max)
    &&& bs.last().wf()
    &&& bs.last().len() < max
    &&& concat_build(bs) == join_build(table, keys, valids, correlated, false, n)
    &&& concat_validity(bs) == join_validity(table, keys, valids, correlated, false, n)
    &&& concat_probe(bs) == join_probe(table, keys, valids, correlated, false, n)
}

/// The output of a mark join with a non-equi predicate: the batches of
/// `mark_batches` went to `pred` in order, and `block` is the marker column
/// of the markers those answers give, followed by the probe columns.
pub open spec fn conjunct_mark_output<F: Fn(&ProbedBatch) -> Result<Vec<Option<bool>>, JoinError>>(
    block: DataBlock,
    input: DataBlock,
    table: Map<u64, Seq<RowPtr>>,
    keys: Seq<u64>,
    valids: Option<Vec<bool>>,
    correlated: bool,
    has_null: bool,
    max: nat,
    pred: F,
) -> bool {
    exists|bs: Seq<ProbedBatch>, fs: Seq<Vec<Option<bool>>>|
        mark_batches(bs, table, keys, valids, correlated, keys.len(), max) && predicate_answers(
            pred,
            bs,
            fs,
        ) && marker_block_of(
            block,
            #[trigger] apply_filters(initial_markers(input, keys.len()), bs, fs),
            has_null,
            input,
        )
}

/// Probe row `x` is one of the first `n` and has matches.
pub open spec fn is_matched_row(
    table: Map<u64, Seq<RowPtr>>,
    keys: Seq<u64>,
    valids: Option<Vec<bool>>,
    correlated: bool,
    n: nat,
    x: u32,
) -> bool {
    x < n && probe_lookup(table, keys, valids, correlated, x as int) is Some
}

impl JoinHashTable {
    /// Right mark join without a non-equi condition: a probe row's marker
    /// becomes `True` when it has a match; the output is the marker column
    /// followed by the probe columns.
    pub fn probe_right_mark_join(
        &self,
        hash_table: &RowHashTable,
        probe_state: &mut ProbeState,
        keys: &[u64],
        input: &DataBlock,
    ) -> (r: Result<Vec<DataBlock>, JoinError>)
        requires
            hash_table.wf(),
            input.wf(),
            input.num_rows == keys@.len(),
            valids_cover(old(probe_state).valids, keys@.len()),
            old(probe_state).markers is Some,
            old(probe_state).markers->0@.len() == keys@.len(),
        ensures
            r is Ok,
            final(probe_state).valids == old(probe_state).valids,
            final(probe_state).markers is Some,
            final(probe_state).markers->0@.len() == keys@.len(),
            forall|i: int|
                0 <= i < keys@.len() ==> #[trigger] final(probe_state).markers->0@[i] == if probe_lookup(
                    hash_table@,
                    keys@,
                    old(probe_state).valids,
                    self.desc.from_correlated_subquery,
                    i,
                ) is Some {
                    MarkerKind::True
                } else {
                    old(probe_state).markers->0@[i]
                },
            r matches Ok(blocks) && blocks@.len() == 1 && marker_block_of(
                blocks@[0],
                final(probe_state).markers->0@,
                self.desc.has_null,
                *input,
            ),
    {
        let n = keys.len();
        let corr = self.desc.from_correlated_subquery;
        let mut markers = probe_state.markers.take().unwrap();
        let ghost m0 = markers@;
        let mut i: usize = 0;
        while i < n
            invariant
                hash_table.wf(),
                i <= n,
                n == keys@.len(),
                corr == self.desc.from_correlated_subquery,
                valids_cover(probe_state.valids, keys@.len()),
                probe_state.valids == old(probe_state).valids,
                m0 == old(probe_state).markers->0@,
                markers@.len() == n,
                forall|k: int|
                    0 <= k < n ==> #[trigger] markers@[k] == if k < i && probe_lookup(
                        hash_table@,
                        keys@,
                        probe_state.valids,
                        corr,
                        k,
                    ) is Some {
                        MarkerKind::True
                    } else {
                        m0[k]
                    },
            decreases n - i,
        {
            if probe_key(hash_table, keys, &probe_state.valids, corr, i).is_some() {
                markers.set(i, MarkerKind::True);
            }
            i += 1;
        }
        let marker_block = create_marker_block(self.desc.has_null, &markers);
        let block = merge_eq_block(&marker_block, input);
        proof {
            assert forall|c: int| 0 <= c < input.columns@.len() implies #[trigger] block.columns@[c + 1]@
                == input.columns@[c]@ by {
                assert(block.columns@[marker_block.columns@.len() + c]@ == input.columns@[c]@);
            }
            assert forall|i: int| 0 <= i < markers@.len() implies #[trigger] block.columns@[0]@[i]
                == marker_value(markers@[i], self.desc.has_null) by {
                assert(block.columns@[0]@ == marker_block.columns@[0]@);
            }
        }
        probe_state.markers = Some(markers);
        let mut out: Vec<DataBlock> = Vec::new();
        out.push(block);
        Ok(out)
    }

    /// Hands one batch to the non-equi predicate and applies its answer to `markers`.
    fn filter_batch<F>(
        &self,
        batch: &ProbedBatch,
        other_predicate: &F,
        markers: &mut Vec<MarkerKind>,
        init: Ghost<Seq<MarkerKind>>,
        table: Ghost<Map<u64, Seq<RowPtr>>>,
        keys: Ghost<Seq<u64>>,
        valids: Ghost<Option<Vec<bool>>>,
        n: Ghost<nat>,
    ) -> (r: Result<Vec<Option<bool>>, JoinError>) where
        F: Fn(&ProbedBatch) -> Result<Vec<Option<bool>>, JoinError>,

        requires
            batch.wf(),
            forall|b: &ProbedBatch| #[trigger] other_predicate.requires((b,)),
            markers_follow(init@, old(markers)@, table@, keys@, valids@, self.desc.from_correlated_subquery, n@),
            forall|j: int|
                0 <= j < batch.probe_rows().len() ==> #[trigger] is_matched_row(
                    table@,
                    keys@,
                    valids@,
                    self.desc.from_correlated_subquery,
                    n@,
                    batch.probe_rows()[j],
                ),
        ensures
            match r {
                Ok(f) => {
                    &&& other_predicate.ensures((batch,), Ok::<Vec<Option<bool>>, JoinError>(f))
                    &&& f@.len() == batch.len()
                    &&& final(markers)@ == apply_filter(old(markers)@, batch.probe_rows(), f@)
                    &&& markers_follow(
                        init@,
                        final(markers)@,
                        table@,
                        keys@,
                        valids@,
                        self.desc.from_correlated_subquery,
                        n@,
                    )
                },
                Err(e) => predicate_failed(*other_predicate, e),
            },
    {
        let filter = match other_predicate(batch) {
            Ok(f) => f,
            Err(e) => {
                proof {
                    assert(other_predicate.ensures((batch,), Err::<Vec<Option<bool>>, JoinError>(e)));
                }
                return Err(e);
            },
        };
        if filter.len() != batch.build_indexes.len() {
            proof {
                assert(other_predicate.ensures((batch,), Ok::<Vec<Option<bool>>, JoinError>(filter)));
                assert(filter@.len() != batch.len());
            }
            return Err(JoinError::Internal);
        }
        let ghost before = markers@;
        let ghost rows = batch.probe_rows();
        let ghost corr = self.desc.from_correlated_subquery;
        proof {
            assert(rows_below(rows, before.len())) by {
                assert forall|j: int| 0 <= j < rows.len() implies #[trigger] rows[j] < before.len() by {
                    assert(is_matched_row(table@, keys@, valids@, corr, n@, rows[j]));
                }
            }
            lemma_below_pairs(batch.probe_indexes@, before.len());
        }
        let updated = update_markers(markers, batch, &filter);
        proof {
            assert(updated is Ok);
            lemma_apply_filter_monotone(before, rows, filter@);
            assert forall|i: int|
                0 <= i < n@ && probe_lookup(table@, keys@, valids@, corr, i) is None implies #[trigger] markers@[i]
                    == init@[i] by {
                assert forall|j: int| 0 <= j < rows.len() implies #[trigger] rows[j] as int != i by {
                    assert(is_matched_row(table@, keys@, valids@, corr, n@, rows[j]));
                }
                lemma_apply_untouched(before, rows, filter@, i);
            }
            assert forall|i: int| 0 <= i < n@ implies marker_moves_up(init@[i], #[trigger] markers@[i]) by {
                assert(marker_moves_up(before[i], markers@[i]));
            }
        }
        Ok(filter)
    }

    /// Right mark join with a non-equi predicate.
    ///
    /// The matches of the probe rows, in order, are cut into batches of
    /// `max_block_size` rows (splitting a probe row's matches where needed)
    /// and handed to `other_predicate` one by one, the last, partly filled
    /// batch included. Each answer moves the marker of its probe row up: an
    /// unknown result turns `False` into `Null`, a true result gives `True`.
    /// The output is the marker column followed by the probe columns.
    ///
    /// Fails with `AbortedQuery` when the cancellation flag is seen set, which
    /// is read only when a batch fills up; otherwise only with what the
    /// predicate failed with, or `Internal` when it answered a batch with the
    /// wrong number of values.
    pub fn probe_right_mark_join_with_conjunct<F>(
        &self,
        hash_table: &RowHashTable,
        probe_state: &ProbeState,
        keys: &[u64],
        input: &DataBlock,
        other_predicate: &F,
    ) -> (r: Result<Vec<DataBlock>, JoinError>) where
        F: Fn(&ProbedBatch) -> Result<Vec<Option<bool>>, JoinError>,

        requires
            hash_table.wf(),
            input.wf(),
            input.num_rows == keys@.len(),
            keys@.len() <= u32::MAX,
            self.desc.max_block_size > 0,
            valids_cover(probe_state.valids, keys@.len()),
            forall|b: &ProbedBatch| #[trigger] other_predicate.requires((b,)),
        ensures
            r is Ok ==> r->Ok_0@.len() == 1,
            r is Ok ==> conjunct_mark_output(
                r->Ok_0@[0],
                *input,
                hash_table@,
                keys@,
                probe_state.valids,
                self.desc.from_correlated_subquery,
                self.desc.has_null,
                self.desc.max_block_size as nat,
                *other_predicate,
            ),
            r is Err ==> (r->Err_0 == JoinError::AbortedQuery && match_count(
                hash_table@,
                keys@,
                probe_state.valids,
                self.desc.from_correlated_subquery,
                keys@.len(),
            ) >= self.desc.max_block_size) || predicate_failed(*other_predicate, r->Err_0),
    {
        let n = keys.len();
        let corr = self.desc.from_correlated_subquery;
        let max = self.desc.max_block_size;
        let ghost table = hash_table@;
        let ghost vs = probe_state.valids;
        proof {
            hash_table.lemma_entries_bounded();
        }
        let mut markers = init_markers(input, n);
        let ghost init = markers@;
        proof {
            assert(init =~= initial_markers(*input, n as nat));
            assert forall|i: int| 0 <= i < n implies marker_moves_up(init[i], #[trigger] markers@[i]) by {}
        }
        let mut batcher = OutputBatcher::new(max);
        let ghost mut handed: Seq<ProbedBatch> = Seq::empty();
        let ghost mut fs: Seq<Vec<Option<bool>>> = Seq::empty();
        proof {
            assert(concat_build(handed) + batcher.all_build() =~= join_build(table, keys@, vs, corr, false, 0));
            assert(concat_validity(handed) + batcher.all_validity() =~= join_validity(table, keys@, vs, corr, false, 0));
            assert(concat_probe(handed) + batcher.all_probe() =~= join_probe(table, keys@, vs, corr, false, 0));
        }
        let mut i: usize = 0;
        while i < n
            invariant
                hash_table.wf(),
                i <= n,
                n == keys@.len(),
                n <= u32::MAX,
                max == self.desc.max_block_size,
                table == hash_table@,
                vs == probe_state.valids,
                corr == self.desc.from_correlated_subquery,
                valids_cover(probe_state.valids, keys@.len()),
                table_rows_fit(table),
                forall|b: &ProbedBatch| #[trigger] other_predicate.requires((b,)),
                batcher.wf(),
                batcher.max_block_size == max,
                batcher.blocks@.len() == 0,
                batches_full(handed, max as nat),
                predicate_answers(*other_predicate, handed, fs),
                markers@ == apply_filters(init, handed, fs),
                concat_build(handed) + batcher.all_build() == join_build(table, keys@, vs, corr, false, i as nat),
                concat_validity(handed) + batcher.all_validity() == join_validity(table, keys@, vs, corr, false, i as nat),
                concat_probe(handed) + batcher.all_probe() == join_probe(table, keys@, vs, corr, false, i as nat),
                markers_follow(init, markers@, table, keys@, vs, corr, n as nat),
                forall|k: int|
                    0 <= k < batcher.all_probe().len() ==> #[trigger] is_matched_row(
                        table,
                        keys@,
                        vs,
                        corr,
                        n as nat,
                        batcher.all_probe()[k],
                    ),
            decreases n - i,
        {
            match probe_key(hash_table, keys, &probe_state.valids, corr, i) {
                None => {
                    proof {
                        assert(rows_for(table, keys@, vs, corr, false, i as int) =~= Seq::<RowPtr>::empty());
                        assert(join_build(table, keys@, vs, corr, false, (i + 1) as nat) =~= join_build(table, keys@, vs, corr, false, i as nat));
                        assert(join_validity(table, keys@, vs, corr, false, (i + 1) as nat) =~= join_validity(table, keys@, vs, corr, false, i as nat));
                        assert(join_probe(table, keys@, vs, corr, false, (i + 1) as nat) =~= join_probe(table, keys@, vs, corr, false, i as nat));
                    }
                },
                Some(v) => {
                    let ghost pre = batcher.all_probe();
                    let ghost pre_build = batcher.all_build();
                    let ghost pre_valid = batcher.all_validity();
                    let ghost pre_cur = batcher.current.len();
                    proof {
                        assert(table.contains_key(keys@[i as int]));
                    }
                    match batcher.append(v.as_slice(), true, i as u32, &self.interrupt) {
                        Ok(()) => {},
                        Err(e) => {
                            proof {
                                lemma_join_build_grows(table, keys@, vs, corr, false, (i + 1) as nat, n as nat);
                                lemma_inner_row_conservation(table, keys@, vs, corr, n as nat);
                                assert(join_build(table, keys@, vs, corr, false, (i + 1) as nat).len()
                                    == concat_build(handed).len() + pre_build.len() + v@.len());
                            }
                            return Err(e);
                        },
                    }
                    let ghost hb = concat_build(handed);
                    let ghost hv = concat_validity(handed);
                    let ghost hp = concat_probe(handed);
                    proof {
                        assert(hb + (pre_build + v@) =~= (hb + pre_build) + v@);
                        assert(hv + (pre_valid + repeat(true, v@.len())) =~= (hv + pre_valid) + repeat(true, v@.len()));
                        assert(hp + (pre + repeat(i as u32, v@.len())) =~= (hp + pre) + repeat(i as u32, v@.len()));
                        assert(repeat(probe_lookup(table, keys@, vs, corr, i as int) is Some, v@.len()) == repeat(true, v@.len()));
                        assert forall|k: int| 0 <= k < batcher.all_probe().len() implies #[trigger] is_matched_row(
                            table,
                            keys@,
                            vs,
                            corr,
                            n as nat,
                            batcher.all_probe()[k],
                        ) by {
                            if k >= pre.len() {
                                assert(batcher.all_probe()[k] == i as u32);
                            } else {
                                assert(batcher.all_probe()[k] == pre[k]);
                            }
                        }
                    }
                    let ghost before_take = batcher.all_probe();
                    let ghost before_build = batcher.all_build();
                    let ghost before_valid = batcher.all_validity();
                    let blocks = batcher.take_blocks();
                    proof {
                        assert forall|k: int| 0 <= k < batcher.all_probe().len() implies #[trigger] is_matched_row(
                            table,
                            keys@,
                            vs,
                            corr,
                            n as nat,
                            batcher.all_probe()[k],
                        ) by {
                            assert(batcher.all_probe()[k] == before_take[concat_probe(blocks@).len() + k]);
                        }
                        assert forall|b: int, j: int|
                            0 <= b < blocks@.len() && 0 <= j < blocks@[b].probe_rows().len() implies #[trigger] is_matched_row(
                            table,
                            keys@,
                            vs,
                            corr,
                            n as nat,
                            blocks@[b].probe_rows()[j],
                        ) by {
                            lemma_concat_probe_member(blocks@, b, j);
                            let k = choose|k: int|
                                0 <= k < concat_probe(blocks@).len() && #[trigger] concat_probe(blocks@)[k]
                                    == blocks@[b].probe_rows()[j];
                            assert(before_take[k] == concat_probe(blocks@)[k]);
                        }
                    }
                    let ghost handed0 = handed;
                    let mut b: usize = 0;
                    while b < blocks.len()
                        invariant
                            b <= blocks@.len(),
                            n == keys@.len(),
                            corr == self.desc.from_correlated_subquery,
                            batches_full(blocks@, max as nat),
                            batches_full(handed0, max as nat),
                            forall|bb: &ProbedBatch| #[trigger] other_predicate.requires((bb,)),
                            handed == handed0 + blocks@.take(b as int),
                            batches_full(handed, max as nat),
                            predicate_answers(*other_predicate, handed, fs),
                            markers@ == apply_filters(init, handed, fs),
                            markers_follow(init, markers@, table, keys@, vs, corr, n as nat),
                            forall|b2: int, j: int|
                                0 <= b2 < blocks@.len() && 0 <= j < blocks@[b2].probe_rows().len() ==> #[trigger] is_matched_row(
                                    table,
                                    keys@,
                                    vs,
                                    corr,
                                    n as nat,
                                    blocks@[b2].probe_rows()[j],
                                ),
                        decreases blocks@.len() - b,
                    {
                        let ghost blk = blocks@[b as int];
                        assert(blk.wf());
                        let f = match self.filter_batch(&blocks[b], other_predicate, &mut markers, Ghost(init), Ghost(table), Ghost(keys@), Ghost(vs), Ghost(n as nat)) {
                            Ok(f) => f,
                            Err(e) => {
                                return Err(e);
                            },
                        };
                        proof {
                            let h2 = handed.push(blk);
                            let f2 = fs.push(f);
                            assert(h2.drop_last() =~= handed);
                            assert(f2.drop_last() =~= fs);
                            assert(blocks@.take(b + 1) =~= blocks@.take(b as int).push(blk));
                            assert(handed0 + blocks@.take(b + 1) =~= h2);
                            lemma_full_push(handed, blk, max as nat);
                            assert forall|j: int| 0 <= j < h2.len() implies #[trigger] other_predicate.ensures((&h2[j],), Ok::<Vec<Option<bool>>, JoinError>(f2[j]))
                                && f2[j]@.len() == h2[j].len() by {
                                if j < handed.len() {
                                    assert(h2[j] == handed[j]);
                                    assert(f2[j] == fs[j]);
                                }
                            }
                            handed = h2;
                            fs = f2;
                        }
                        b += 1;
                    }
                    proof {
                        assert(blocks@.take(blocks@.len() as int) =~= blocks@);
                        lemma_concat_append(handed0, blocks@);
                        let cb = concat_build(blocks@);
                        let cv = concat_validity(blocks@);
                        let cp = concat_probe(blocks@);
                        assert(hb + cb + batcher.all_build() =~= hb + (cb + batcher.all_build()));
                        assert(hv + cv + batcher.all_validity() =~= hv + (cv + batcher.all_validity()));
                        assert(hp + cp + batcher.all_probe() =~= hp + (cp + batcher.all_probe()));
                    }
                },
            }
            i += 1;
        }
        let (blocks, tail) = batcher.finish();
        proof {
            assert(blocks@ =~= Seq::<ProbedBatch>::empty());
            assert(concat_build(blocks@) =~= Seq::<RowPtr>::empty());
            assert(concat_validity(blocks@) =~= Seq::<bool>::empty());
            assert(concat_probe(blocks@) =~= Seq::<u32>::empty());
            let all = batcher.all_probe();
            assert(all =~= tail.probe_rows());
            assert forall|j: int| 0 <= j < tail.probe_rows().len() implies #[trigger] is_matched_row(
                table,
                keys@,
                vs,
                corr,
                n as nat,
                tail.probe_rows()[j],
            ) by {
                assert(all[j] == tail.probe_rows()[j]);
            }
        }
        let f = match self.filter_batch(&tail, other_predicate, &mut markers, Ghost(init), Ghost(table), Ghost(keys@), Ghost(vs), Ghost(n as nat)) {
            Ok(f) => f,
            Err(e) => {
                return Err(e);
            },
        };
        let ghost bs = handed.push(tail);
        let ghost fss = fs.push(f);
        proof {
            assert(bs.drop_last() =~= handed);
            assert(fss.drop_last() =~= fs);
            lemma_concat_push(handed, tail);
            assert forall|j: int| 0 <= j < bs.len() implies #[trigger] other_predicate.ensures((&bs[j],), Ok::<Vec<Option<bool>>, JoinError>(fss[j]))
                && fss[j]@.len() == bs[j].len() by {
                if j < handed.len() {
                    assert(bs[j] == handed[j]);
                    assert(fss[j] == fs[j]);
                }
            }
            assert(predicate_answers(*other_predicate, bs, fss));
            assert(markers@ == apply_filters(init, bs, fss));
            assert(mark_batches(bs, table, keys@, vs, corr, n as nat, max as nat));
        }
        let marker_block = create_marker_block(self.desc.has_null, &markers);
        let block = merge_eq_block(&marker_block, input);
        proof {
            assert forall|c: int| 0 <= c < input.columns@.len() implies #[trigger] block.columns@[c + 1]@
                == input.columns@[c]@ by {
                assert(block.columns@[marker_block.columns@.len() + c]@ == input.columns@[c]@);
            }
            assert forall|k: int| 0 <= k < markers@.len() implies #[trigger] block.columns@[0]@[k]
                == marker_value(markers@[k], self.desc.has_null) by {
                assert(block.columns@[0]@ == marker_block.columns@[0]@);
            }
            assert(marker_block_of(block, markers@, self.desc.has_null, *input));
        }
        let mut out: Vec<DataBlock> = Vec::new();
        out.push(block);
        proof {
            assert(out@[0] == block);
            assert(init == initial_markers(*input, keys@.len()));
            assert(marker_block_of(out@[0], apply_filters(initial_markers(*input, keys@.len()), bs, fss), self.desc.has_null, *input));
            assert(conjunct_mark_output(out@[0], *input, hash_table@, keys@, probe_state.valids, corr, self.desc.has_null, max as nat, *other_predicate));
        }
        Ok(out)
    }
}

} // verus!
