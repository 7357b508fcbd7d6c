use vstd::prelude::*;
use crate::join::batch::OutputBatcher;
use crate::join::batch::ProbedBatch;
use crate::join::batch::batches_full;
use crate::join::batch::lemma_full_drop_last;
use crate::join::batch::concat_build;
use crate::join::batch::concat_probe;
use crate::join::batch::concat_validity;
use crate::join::batch::expand_pairs;
use crate::join::batch::lemma_expand_prefix_len;
use crate::join::batch::lemma_expand_push;
use crate::join::batch::lemma_concat_push;
use crate::join::batch::repeat;
use crate::join::desc::JoinHashTable;
use crate::join::desc::JoinState;
use crate::join::desc::JoinType;
use crate::join::desc::ProbeState;
use crate::join::desc::probe_key;
use crate::join::desc::probe_lookup;
use crate::join::desc::table_rows_fit;
use crate::join::desc::valids_cover;
use crate::join::error::JoinError;
use crate::join::hash_table::RowHashTable;
use crate::join::row::RowPtr;
use crate::join::row::dummy_row_ptr;
use crate::join::semantics::join_build;
use crate::join::semantics::join_probe;
use crate::join::semantics::join_validity;
use crate::join::semantics::lemma_join_build_grows;
use crate::join::semantics::rows_for;

verus! {

/// Output of a left-join probe.
#[derive(Debug)]
pub struct LeftJoinOutput {
    /// Finished output batches, in order.
    pub blocks: Vec<ProbedBatch>,
    /// With a non-equi condition: the number of output rows of each probe row.
    pub row_state: Vec<u32>,
}

/// The batches `bs`, read in order, hold exactly the given rows.
pub open spec fn batches_hold(
    bs: Seq<ProbedBatch>,
    build: Seq<RowPtr>,
    validity: Seq<bool>,
    probe: Seq<u32>,
) -> bool {
    &&& concat_build(bs) == build
    &&& concat_validity(bs) == validity
    &&& concat_probe(bs) == probe
}

/// Some probe row among the first `n` has more than one matching build row.
pub open spec fn some_row_has_many(
    table: Map<u64, Seq<RowPtr>>,
    keys: Seq<u64>,
    valids: Option<Vec<bool>>,
    correlated: bool,
    n: nat,
) -> bool {
    exists|i: int|
        0 <= i < n && #[trigger] probe_lookup(table, keys, valids, correlated, i) is Some
            && probe_lookup(table, keys, valids, correlated, i)->0.len() > 1
}

/// One output row of probe row `row` at position `idx`, after the non-equi
/// filter wrote `bm[idx]`: a probe row whose count is down to one or zero keeps
/// its row, and each further filtered-out row takes one off the count.
pub open spec fn fill_null_step(bm: Seq<bool>, st: Seq<u32>, idx: int, row: int) -> (Seq<bool>, Seq<u32>) {
    if st[row] == 0 || st[row] == 1 {
        (bm.update(idx, true), st)
    } else if !bm[idx] {
        (bm, st.update(row, (st[row] - 1) as u32))
    } else {
        (bm, st)
    }
}

/// `fill_null_step` applied to the output rows of `rows`, in order.
pub open spec fn fill_null_fold(bm: Seq<bool>, st: Seq<u32>, rows: Seq<u32>) -> (Seq<bool>, Seq<u32>)
    decreases rows.len(),
{
    if rows.len() == 0 {
        (bm, st)
    } else {
        let prev = fill_null_fold(bm, st, rows.drop_last());
        fill_null_step(prev.0, prev.1, rows.len() - 1, rows.last() as int)
    }
}

proof fn lemma_fold_push(bm: Seq<bool>, st: Seq<u32>, rows: Seq<u32>, x: u32)
    ensures
        fill_null_fold(bm, st, rows.push(x)) == fill_null_step(
            fill_null_fold(bm, st, rows).0,
            fill_null_fold(bm, st, rows).1,
            rows.len() as int,
            x as int,
        ),
{
    assert(rows.push(x).drop_last() =~= rows);
}

/// Probe row `i` is the first with more than one matching build row.
pub open spec fn first_row_with_many(
    table: Map<u64, Seq<RowPtr>>,
    keys: Seq<u64>,
    valids: Option<Vec<bool>>,
    correlated: bool,
    i: int,
) -> bool {
    &&& probe_lookup(table, keys, valids, correlated, i) is Some
    &&& probe_lookup(table, keys, valids, correlated, i)->0.len() > 1
    &&& !some_row_has_many(table, keys, valids, correlated, i as nat)
}

/// The output rows of the left join reach `max` with probe row `i`, and (for
/// a scalar-subquery join) no probe row up to `i` has more than one match: a
/// batch closes while row `i` is added, which is where cancellation is read.
pub open spec fn left_split_reached(
    table: Map<u64, Seq<RowPtr>>,
    keys: Seq<u64>,
    valids: Option<Vec<bool>>,
    correlated: bool,
    join_type: JoinType,
    max: nat,
    i: int,
) -> bool {
    &&& join_build(table, keys, valids, correlated, true, (i + 1) as nat).len() >= max
    &&& join_type == JoinType::Single ==> !some_row_has_many(table, keys, valids, correlated, (i + 1) as nat)
}

/// Number of rows of probe row `r` among the first `t` rows that the filter
/// `bm` rejected.
pub open spec fn failed_before(bm: Seq<bool>, rows: Seq<u32>, r: int, t: int) -> nat
    decreases t,
{
    if t <= 0 {
        0
    } else {
        failed_before(bm, rows, r, t - 1) + if rows[t - 1] as int == r && !bm[t - 1] {
            1nat
        } else {
            0nat
        }
    }
}

/// What the post-filter of a left join does to a probe row `r` that starts
/// with count `k = st[r] > 0`, the number of its output rows: a row of `r` is
/// kept when the filter passed it, or when `k` less the rows of `r` rejected
/// before it is at most one. So the passing rows of `r` are kept, and where
/// none passes exactly its last row is kept (to be emitted with a NULL build
/// side). Its count ends as the number of passing rows, but at least one.
pub proof fn lemma_fill_null_meaning(bm: Seq<bool>, st: Seq<u32>, rows: Seq<u32>, r: int)
    requires
        rows.len() <= bm.len(),
        forall|j: int| 0 <= j < rows.len() ==> #[trigger] rows[j] < st.len(),
        0 <= r < st.len(),
        st[r] > 0,
    ensures
        ({
            let out = fill_null_fold(bm, st, rows);
            let k = st[r] as int;
            &&& out.0.len() == bm.len()
            &&& out.1.len() == st.len()
            &&& out.1[r] as int == if k - failed_before(bm, rows, r, rows.len() as int) >= 1 {
                k - failed_before(bm, rows, r, rows.len() as int)
            } else {
                1
            }
            &&& forall|p: int|
                0 <= p < rows.len() && rows[p] as int == r ==> #[trigger] out.0[p] == (bm[p] || k
                    - failed_before(bm, rows, r, p) <= 1)
        }),
    decreases rows.len(),
{
    if rows.len() > 0 {
        let t = rows.len() - 1;
        let rest = rows.drop_last();
        assert forall|j: int| 0 <= j < rest.len() implies #[trigger] rest[j] < st.len() by {
            assert(rest[j] == rows[j]);
        }
        lemma_fill_null_meaning(bm, st, rest, r);
        lemma_failed_before_prefix(bm, rows, rest, r, t);
        let prev = fill_null_fold(bm, st, rest);
        let k = st[r] as int;
        assert(prev.0[t] == bm[t]) by {
            lemma_fold_untouched(bm, st, rest, t);
        }
        assert forall|p: int| 0 <= p < t && rows[p] as int == r implies failed_before(bm, rows, r, p)
            == failed_before(bm, rest, r, p) by {
            lemma_failed_before_prefix(bm, rows, rest, r, p);
        }
        assert(rows[t] < st.len());
        let out = fill_null_fold(bm, st, rows);
        assert forall|p: int|
            0 <= p < rows.len() && rows[p] as int == r implies #[trigger] out.0[p] == (bm[p] || k
                - failed_before(bm, rows, r, p) <= 1) by {
            if p < t {
                assert(rest[p] == rows[p]);
            }
        }
    }
}

/// Counting rejected rows of `r` over a prefix does not look past it.
proof fn lemma_failed_before_prefix(bm: Seq<bool>, rows: Seq<u32>, rest: Seq<u32>, r: int, t: int)
    requires
        rest == rows.drop_last(),
        rows.len() > 0,
        0 <= t <= rest.len(),
    ensures
        failed_before(bm, rows, r, t) == failed_before(bm, rest, r, t),
    decreases t,
{
    if t > 0 {
        lemma_failed_before_prefix(bm, rows, rest, r, t - 1);
        assert(rest[t - 1] == rows[t - 1]);
    }
}

/// The fold writes only positions of the rows it has processed.
proof fn lemma_fold_untouched(bm: Seq<bool>, st: Seq<u32>, rows: Seq<u32>, p: int)
    requires
        rows.len() <= p < bm.len(),
    ensures
        fill_null_fold(bm, st, rows).0[p] == bm[p],
        fill_null_fold(bm, st, rows).0.len() == bm.len(),
    decreases rows.len(),
{
    if rows.len() > 0 {
        lemma_fold_untouched(bm, st, rows.drop_last(), p);
    }
}

fn append_rows(dst: &mut Vec<RowPtr>, src: &[RowPtr])
    ensures
        final(dst)@ == old(dst)@ + src@,
{
    let mut k: usize = 0;
    while k < src.len()
        invariant
            k <= src@.len(),
            dst@ == old(dst)@ + src@.subrange(0, k as int),
        decreases src@.len() - k,
    {
        dst.push(src[k]);
        proof {
            assert(src@.subrange(0, k + 1) =~= src@.subrange(0, k as int).push(src@[k as int]));
            assert(old(dst)@ + src@.subrange(0, k + 1) =~= (old(dst)@ + src@.subrange(0, k as int)).push(src@[k as int]));
        }
        k += 1;
    }
    proof {
        assert(src@.subrange(0, src@.len() as int) =~= src@);
    }
}

impl JoinHashTable {
    /// Probes a left (outer) join: every probe row yields its matches, or one
    /// row with a NULL build side when it has none.
    ///
    /// Output is cut into batches of at most `max_block_size` rows, splitting
    /// one probe row's matches where needed. Without a non-equi condition the
    /// last, partly filled batch is held back in `join_state.rest_batches`.
    /// A full outer join also records every matched build row (or a dummy row)
    /// in `join_state.build_indexes`; a scalar-subquery join fails when a probe
    /// row has more than one match.
    pub fn probe_left_join(
        &self,
        hash_table: &RowHashTable,
        probe_state: &ProbeState,
        keys: &[u64],
        join_state: &mut JoinState,
        with_other_conjunct: bool,
    ) -> (r: Result<LeftJoinOutput, JoinError>)
        requires
            hash_table.wf(),
            self.desc.max_block_size > 0,
            keys@.len() <= u32::MAX,
            valids_cover(probe_state.valids, keys@.len()),
        ensures
            ({
                let table = hash_table@;
                let vs = probe_state.valids;
                let corr = self.desc.from_correlated_subquery;
                let n = keys@.len();
                let max = self.desc.max_block_size;
                match r {
                    Ok(out) => {
                        &&& forall|b: int|
                            0 <= b < out.blocks@.len() ==> #[trigger] out.blocks@[b].wf()
                                && out.blocks@[b].len() <= max
                        &&& with_other_conjunct && out.blocks@.len() > 0 ==> batches_full(
                            out.blocks@.drop_last(),
                            max as nat,
                        )
                        &&& !with_other_conjunct ==> batches_full(out.blocks@, max as nat)
                        &&& self.desc.join_type == JoinType::Single ==> !some_row_has_many(
                            table,
                            keys@,
                            vs,
                            corr,
                            n,
                        )
                        &&& self.desc.join_type == JoinType::Full ==> final(join_state).build_indexes@
                            == old(join_state).build_indexes@ + join_build(
                            table,
                            keys@,
                            vs,
                            corr,
                            true,
                            n,
                        )
                        &&& self.desc.join_type != JoinType::Full ==> final(join_state).build_indexes
                            == old(join_state).build_indexes
                        &&& with_other_conjunct ==> {
                            &&& final(join_state).rest_batches == old(join_state).rest_batches
                            &&& batches_hold(
                                out.blocks@,
                                join_build(table, keys@, vs, corr, true, n),
                                join_validity(table, keys@, vs, corr, true, n),
                                join_probe(table, keys@, vs, corr, true, n),
                            )
                            &&& out.row_state@.len() == n
                            &&& forall|i: int|
                                0 <= i < n ==> #[trigger] out.row_state@[i] == rows_for(
                                    table,
                                    keys@,
                                    vs,
                                    corr,
                                    true,
                                    i,
                                ).len()
                        }
                        &&& !with_other_conjunct ==> {
                            &&& final(join_state).rest_batches@.len() == old(
                                join_state,
                            ).rest_batches@.len() + 1
                            &&& final(join_state).rest_batches@.drop_last() == old(
                                join_state,
                            ).rest_batches@
                            &&& final(join_state).rest_batches@.last().wf()
                            &&& final(join_state).rest_batches@.last().len() < max
                            &&& batches_hold(
                                out.blocks@.push(final(join_state).rest_batches@.last()),
                                join_build(table, keys@, vs, corr, true, n),
                                join_validity(table, keys@, vs, corr, true, n),
                                join_probe(table, keys@, vs, corr, true, n),
                            )
                            &&& out.row_state@.len() == 0
                        }
                    },
                    Err(e) => {
                        &&& final(join_state).rest_batches == old(join_state).rest_batches
                        &&& {
                            ||| e == JoinError::AbortedQuery && exists|i: int|
                                0 <= i < n && #[trigger] left_split_reached(
                                    table,
                                    keys@,
                                    vs,
                                    corr,
                                    self.desc.join_type,
                                    max as nat,
                                    i,
                                )
                            ||| e == JoinError::ScalarSubqueryCardinality && self.desc.join_type
                                == JoinType::Single && exists|i: int|
                                0 <= i < n && #[trigger] first_row_with_many(table, keys@, vs, corr, i)
                        }
                    },
                }
            }),
    {
        let ghost table = hash_table@;
        proof {
            hash_table.lemma_entries_bounded();
        }
        let ghost vs = probe_state.valids;
        let corr = self.desc.from_correlated_subquery;
        let n = keys.len();
        let is_full = self.desc.join_type == JoinType::Full;
        let is_single = self.desc.join_type == JoinType::Single;
        let mut batcher = OutputBatcher::new(self.desc.max_block_size);
        let mut row_state: Vec<u32> = Vec::new();
        let dummy_probed_rows = vec![dummy_row_ptr()];
        let mut i: usize = 0;
        while i < n
            invariant
                hash_table.wf(),
                i <= n,
                n == keys@.len(),
                n <= u32::MAX,
                table == hash_table@,
                vs == probe_state.valids,
                corr == self.desc.from_correlated_subquery,
                is_full == (self.desc.join_type == JoinType::Full),
                is_single == (self.desc.join_type == JoinType::Single),
                valids_cover(probe_state.valids, keys@.len()),
                table_rows_fit(table),
                dummy_probed_rows@ == seq![crate::join::row::spec_dummy_row_ptr()],
                batcher.wf(),
                batcher.max_block_size == self.desc.max_block_size,
                batcher.all_build() == join_build(table, keys@, vs, corr, true, i as nat),
                batcher.all_validity() == join_validity(table, keys@, vs, corr, true, i as nat),
                batcher.all_probe() == join_probe(table, keys@, vs, corr, true, i as nat),
                with_other_conjunct ==> row_state@.len() == i,
                with_other_conjunct ==> forall|j: int|
                    0 <= j < i ==> #[trigger] row_state@[j] == rows_for(
                        table,
                        keys@,
                        vs,
                        corr,
                        true,
                        j,
                    ).len(),
                !with_other_conjunct ==> row_state@.len() == 0,
                is_single ==> !some_row_has_many(table, keys@, vs, corr, i as nat),
                is_full ==> join_state.build_indexes@ == old(join_state).build_indexes@
                    + join_build(table, keys@, vs, corr, true, i as nat),
                !is_full ==> join_state.build_indexes == old(join_state).build_indexes,
                join_state.rest_batches == old(join_state).rest_batches,
            decreases n - i,
        {
            let found = probe_key(hash_table, keys, &probe_state.valids, corr, i);
            let (validity_value, probed_rows): (bool, &Vec<RowPtr>) = match found {
                None => (false, &dummy_probed_rows),
                Some(v) => (true, v),
            };
            proof {
                assert(probed_rows@ == rows_for(table, keys@, vs, corr, true, i as int));
                assert(validity_value == (probe_lookup(table, keys@, vs, corr, i as int) is Some));
                if found is Some {
                    assert(table.contains_key(keys@[i as int]));
                }
            }
            if is_full {
                append_rows(&mut join_state.build_indexes, probed_rows.as_slice());
                proof {
                    assert(join_state.build_indexes@ =~= old(join_state).build_indexes@ + join_build(
                        table,
                        keys@,
                        vs,
                        corr,
                        true,
                        (i + 1) as nat,
                    ));
                }
            }
            if is_single && probed_rows.len() > 1 {
                proof {
                    assert(probe_lookup(table, keys@, vs, corr, i as int) is Some);
                    assert(first_row_with_many(table, keys@, vs, corr, i as int));
                }
                return Err(JoinError::ScalarSubqueryCardinality);
            }
            if with_other_conjunct {
                row_state.push(probed_rows.len() as u32);
            }
            let ghost pre_build = batcher.all_build();
            let ghost pre_cur = batcher.current.len();
            match batcher.append(probed_rows.as_slice(), validity_value, i as u32, &self.interrupt) {
                Ok(()) => {},
                Err(e) => {
                    proof {
                        assert(join_build(table, keys@, vs, corr, true, (i + 1) as nat).len() == pre_build.len() + probed_rows@.len());
                        assert(pre_build.len() >= pre_cur);
                        if is_single {
                            assert forall|j: int| 0 <= j < i + 1 implies !(#[trigger] probe_lookup(table, keys@, vs, corr, j) is Some
                                && probe_lookup(table, keys@, vs, corr, j)->0.len() > 1) by {
                                if j < i {
                                    assert(!some_row_has_many(table, keys@, vs, corr, i as nat));
                                }
                            }
                        }
                        assert(left_split_reached(table, keys@, vs, corr, self.desc.join_type, self.desc.max_block_size as nat, i as int));
                    }
                    return Err(e);
                },
            }
            proof {
                if is_single {
                    assert forall|j: int| 0 <= j < i + 1 implies !(#[trigger] probe_lookup(table, keys@, vs, corr, j) is Some
                        && probe_lookup(table, keys@, vs, corr, j)->0.len() > 1) by {
                        if j < i {
                            assert(!some_row_has_many(table, keys@, vs, corr, i as nat));
                        }
                    }
                }
            }
            i += 1;
        }
        let (blocks, tail) = batcher.finish();
        let ghost all = blocks@.push(tail);
        proof {
            lemma_concat_push(blocks@, tail);
        }
        if with_other_conjunct {
            let mut blocks = blocks;
            if tail.build_indexes.len() > 0 || blocks.len() == 0 {
                let ghost full = blocks@;
                blocks.push(tail);
                proof {
                    assert(blocks@.drop_last() =~= full);
                }
                return Ok(LeftJoinOutput { blocks, row_state });
            }
            proof {
                assert(tail.build_indexes@ =~= Seq::<RowPtr>::empty());
                assert(tail.validity@ =~= Seq::<bool>::empty());
                assert(tail.probe_rows() =~= Seq::<u32>::empty());
                assert(concat_build(all) =~= concat_build(blocks@));
                assert(concat_validity(all) =~= concat_validity(blocks@));
                assert(concat_probe(all) =~= concat_probe(blocks@));
                lemma_full_drop_last(blocks@, self.desc.max_block_size as nat);
            }
            Ok(LeftJoinOutput { blocks, row_state })
        } else {
            join_state.rest_batches.push(tail);
            Ok(LeftJoinOutput { blocks, row_state })
        }
    }
    /// Post-filter of a left join with a non-equi condition: keeps at least one
    /// row of every probe row, as `fill_null_fold` describes.
    pub fn fill_null_for_left_join(
        &self,
        bm: &mut Vec<bool>,
        probe_indexes: &[(u32, u32)],
        row_state: &mut Vec<u32>,
    )
        requires
            expand_pairs(probe_indexes@).len() <= old(bm)@.len(),
            forall|j: int| 0 <= j < probe_indexes@.len() ==> (#[trigger] probe_indexes@[j]).0 < old(row_state)@.len(),
        ensures
            (final(bm)@, final(row_state)@) == fill_null_fold(
                old(bm)@,
                old(row_state)@,
                expand_pairs(probe_indexes@),
            ),
    {
        let ghost bm0 = bm@;
        let bm_len = bm.len();
        let ghost st0 = row_state@;
        let ghost pairs = probe_indexes@;
        let mut index: usize = 0;
        let mut v: usize = 0;
        proof {
            assert(pairs.take(0) =~= Seq::<(u32, u32)>::empty());
        }
        while v < probe_indexes.len()
            invariant
                v <= pairs.len(),
                pairs == probe_indexes@,
                expand_pairs(pairs).len() <= bm0.len(),
                forall|j: int| 0 <= j < pairs.len() ==> (#[trigger] pairs[j]).0 < st0.len(),
                index == expand_pairs(pairs.take(v as int)).len(),
                bm@.len() == bm0.len(),
                bm0.len() == bm_len,
                row_state@.len() == st0.len(),
                (bm@, row_state@) == fill_null_fold(bm0, st0, expand_pairs(pairs.take(v as int))),
            decreases pairs.len() - v,
        {
            let (row_u, cnt) = probe_indexes[v];
            let row = row_u as usize;
            let ghost done = expand_pairs(pairs.take(v as int));
            proof {
                assert(pairs.take(v as int).push(pairs[v as int]) =~= pairs.take(v + 1));
                lemma_expand_push(pairs.take(v as int), pairs[v as int]);
                lemma_expand_prefix_len(pairs, v + 1);
                assert(pairs[v as int].0 < st0.len());
            }
            let mut c: u32 = 0;
            while c < cnt
                invariant
                    c <= cnt,
                    row < st0.len(),
                    row == row_u as usize,
                    bm@.len() == bm0.len(),
                    row_state@.len() == st0.len(),
                    index == done.len() + c,
                    done.len() + cnt <= bm0.len(),
                    bm0.len() == bm_len,
                    (bm@, row_state@) == fill_null_fold(bm0, st0, done + repeat(row_u, c as nat)),
                decreases cnt - c,
            {
                let ghost rows = done + repeat(row_u, c as nat);
                proof {
                    assert(rows.push(row_u) =~= done + repeat(row_u, (c + 1) as nat));
                    lemma_fold_push(bm0, st0, rows, row_u);
                }
                if row_state[row] == 0 || row_state[row] == 1 {
                    bm.set(index, true);
                } else if !bm[index] {
                    let s = row_state[row];
                    row_state.set(row, s - 1);
                }
                index += 1;
                c += 1;
            }
            proof {
                assert(done + repeat(row_u, cnt as nat) == expand_pairs(pairs.take(v + 1)));
            }
            v += 1;
        }
        proof {
            assert(pairs.take(pairs.len() as int) =~= pairs);
        }
    }
}

} // verus!
