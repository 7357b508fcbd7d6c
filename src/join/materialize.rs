use vstd::prelude::*;
use crate::join::batch::ProbedBatch;
use crate::join::batch::expand_probe_indexes;
use crate::join::desc::JoinHashTable;
use crate::join::row::DataBlock;
use crate::join::row::merge_eq_block;
use crate::join::row::take_rows;

verus! {

impl JoinHashTable {
    /// The rows of `batch` as a block: the gathered build columns (NULL where
    /// the batch has no build row) followed by the probe columns of `input`.
    pub fn materialize(&self, batch: &ProbedBatch, input: &DataBlock) -> (r: DataBlock)
        requires
            batch.wf(),
            self.row_space.wf(),
            input.wf(),
            forall|j: int| 0 <= j < batch.probe_rows().len() ==> #[trigger] batch.probe_rows()[j] < input.num_rows,
        ensures
            r.wf(),
            r.num_rows == batch.len(),
            r.columns@.len() == self.row_space.num_columns + input.columns@.len(),
            forall|c: int, j: int|
                0 <= c < self.row_space.num_columns && 0 <= j < batch.len() ==> #[trigger] r.columns@[c]@[j]
                    == self.row_space.gathered(batch.build_indexes@[j], batch.validity@[j], c),
            forall|c: int, j: int|
                0 <= c < input.columns@.len() && 0 <= j < batch.len() ==> #[trigger] r.columns@[self.row_space.num_columns + c]@[j]
                    == input.columns@[c]@[batch.probe_rows()[j] as int],
    {
        let build_block = self.row_space.gather(batch.build_indexes.as_slice(), batch.validity.as_slice());
        let rows = expand_probe_indexes(batch.probe_indexes.as_slice());
        let probe_block = take_rows(input, rows.as_slice());
        let r = merge_eq_block(&build_block, &probe_block);
        proof {
            assert forall|c: int, j: int|
                0 <= c < input.columns@.len() && 0 <= j < batch.len() implies #[trigger] r.columns@[self.row_space.num_columns + c]@[j]
                    == input.columns@[c]@[batch.probe_rows()[j] as int] by {
                assert(r.columns@[build_block.columns@.len() + c]@ == probe_block.columns@[c]@);
            }
        }
        r
    }
}

} // verus!
