use vstd::prelude::*;
use crate::join::batch::OutputBatcher;
use crate::join::batch::ProbedBatch;
use crate::join::batch::batches_bounded;
use crate::join::batch::batches_full;
use crate::join::batch::lemma_full_drop_last;
use crate::join::batch::concat_build;
use crate::join::batch::concat_probe;
use crate::join::batch::concat_validity;
use crate::join::batch::lemma_concat_push;
use crate::join::desc::JoinHashTable;
use crate::join::desc::ProbeState;
use crate::join::desc::probe_key;
use crate::join::desc::table_rows_fit;
use crate::join::desc::valids_cover;
use crate::join::error::JoinError;
use crate::join::hash_table::RowHashTable;
use crate::join::left_join::batches_hold;
use crate::join::row::RowPtr;
use crate::join::semantics::join_build;
use crate::join::semantics::join_probe;
use crate::join::semantics::join_validity;
use crate::join::semantics::lemma_inner_row_conservation;
use crate::join::semantics::lemma_join_build_grows;
use crate::join::semantics::match_count;
use crate::join::semantics::rows_for;

verus! {

impl JoinHashTable {
    /// Probes an inner join: every probe row yields one output row per
    /// matching build row, in batches of at most `max_block_size` rows.
    pub fn probe_inner_join(
        &self,
        hash_table: &RowHashTable,
        probe_state: &ProbeState,
        keys: &[u64],
    ) -> (r: Result<Vec<ProbedBatch>, JoinError>)
        requires
            hash_table.wf(),
            self.desc.max_block_size > 0,
            keys@.len() <= u32::MAX,
            valids_cover(probe_state.valids, keys@.len()),
        ensures
            ({
                let table = hash_table@;
                let vs = probe_state.valids;
                let corr = self.desc.from_correlated_subquery;
                let n = keys@.len();
                match r {
                    Ok(blocks) => {
                        &&& batches_bounded(blocks@, self.desc.max_block_size as nat)
                        &&& blocks@.len() > 0 ==> batches_full(
                            blocks@.drop_last(),
                            self.desc.max_block_size as nat,
                        )
                        &&& batches_hold(
                            blocks@,
                            join_build(table, keys@, vs, corr, false, n),
                            join_validity(table, keys@, vs, corr, false, n),
                            join_probe(table, keys@, vs, corr, false, n),
                        )
                        &&& concat_build(blocks@).len() == match_count(table, keys@, vs, corr, n)
                    },
                    Err(e) => e == JoinError::AbortedQuery && join_build(
                        table,
                        keys@,
                        vs,
                        corr,
                        false,
                        n,
                    ).len() >= self.desc.max_block_size,
                }
            }),
    {
        let ghost table = hash_table@;
        proof {
            hash_table.lemma_entries_bounded();
        }
        let ghost vs = probe_state.valids;
        let corr = self.desc.from_correlated_subquery;
        let n = keys.len();
        let mut batcher = OutputBatcher::new(self.desc.max_block_size);
        let mut i: usize = 0;
        while i < n
            invariant
                hash_table.wf(),
                i <= n,
                n == keys@.len(),
                n <= u32::MAX,
                table == hash_table@,
                vs == probe_state.valids,
                corr == self.desc.from_correlated_subquery,
                valids_cover(probe_state.valids, keys@.len()),
                table_rows_fit(table),
                batcher.wf(),
                batcher.max_block_size == self.desc.max_block_size,
                batcher.all_build() == join_build(table, keys@, vs, corr, false, i as nat),
                batcher.all_validity() == join_validity(table, keys@, vs, corr, false, i as nat),
                batcher.all_probe() == join_probe(table, keys@, vs, corr, false, i as nat),
            decreases n - i,
        {
            let ghost pre_build = batcher.all_build();
            let ghost pre_cur = batcher.current.len();
            match probe_key(hash_table, keys, &probe_state.valids, corr, i) {
                Some(v) => {
                    proof {
                        assert(table.contains_key(keys@[i as int]));
                    }
                    match batcher.append(v.as_slice(), true, i as u32, &self.interrupt) {
                        Ok(()) => {},
                        Err(e) => {
                            proof {
                                lemma_join_build_grows(table, keys@, vs, corr, false, (i + 1) as nat, n as nat);
                            }
                            return Err(e);
                        },
                    }
                },
                None => {
                    proof {
                        assert(rows_for(table, keys@, vs, corr, false, i as int) =~= Seq::<RowPtr>::empty());
                        assert(batcher.all_build() =~= join_build(table, keys@, vs, corr, false, (i + 1) as nat));
                        assert(batcher.all_validity() =~= join_validity(table, keys@, vs, corr, false, (i + 1) as nat));
                        assert(batcher.all_probe() =~= join_probe(table, keys@, vs, corr, false, (i + 1) as nat));
                    }
                },
            }
            i += 1;
        }
        let (mut blocks, tail) = batcher.finish();
        proof {
            lemma_concat_push(blocks@, tail);
            lemma_inner_row_conservation(table, keys@, vs, corr, n as nat);
        }
        if tail.build_indexes.len() > 0 {
            let ghost full = blocks@;
            blocks.push(tail);
            proof {
                assert(blocks@.drop_last() =~= full);
            }
        } else {
            proof {
                if blocks@.len() > 0 {
                    lemma_full_drop_last(blocks@, self.desc.max_block_size as nat);
                }
            }
            proof {
                let all = blocks@.push(tail);
                assert(tail.build_indexes@ =~= Seq::<RowPtr>::empty());
                assert(tail.validity@ =~= Seq::<bool>::empty());
                assert(tail.probe_rows() =~= Seq::<u32>::empty());
                assert(concat_build(all) =~= concat_build(blocks@));
                assert(concat_validity(all) =~= concat_validity(blocks@));
                assert(concat_probe(all) =~= concat_probe(blocks@));
            }
        }
        Ok(blocks)
    }
}

} // verus!
