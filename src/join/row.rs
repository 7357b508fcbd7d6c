use vstd::prelude::*;
use crate::join::marker::MarkerKind;

verus! {

/// Locates one build-side row: the build block and the row inside it.
#[derive(Clone, Copy, Debug, PartialEq, Eq)]
pub struct RowPtr {
    pub chunk_index: usize,
    pub row_index: usize,
    pub marker: Option<MarkerKind>,
}

/// The row that stands for "no build row matched"; it is never read from the row space.
pub open spec fn spec_dummy_row_ptr() -> RowPtr {
    RowPtr { chunk_index: usize::MAX, row_index: usize::MAX, marker: Some(MarkerKind::False) }
}

pub fn dummy_row_ptr() -> (r: RowPtr)
    ensures
        r == spec_dummy_row_ptr(),
{
    RowPtr { chunk_index: usize::MAX, row_index: usize::MAX, marker: Some(MarkerKind::False) }
}

/// A value of a column.
#[derive(Clone, Copy, Debug, PartialEq, Eq, Structural)]
pub enum Scalar {
    Null,
    Boolean(bool),
    Number(i64),
}

/// A batch of rows stored column by column.
#[derive(Clone, Debug)]
pub struct DataBlock {
    pub columns: Vec<Vec<Scalar>>,
    pub num_rows: usize,
}

impl DataBlock {
    pub open spec fn wf(&self) -> bool {
        forall|c: int| 0 <= c < self.columns@.len() ==> #[trigger] self.columns@[c]@.len() == self.num_rows
    }
}

/// The build side: its blocks, all with `num_columns` columns.
#[derive(Clone, Debug)]
pub struct RowSpace {
    pub blocks: Vec<DataBlock>,
    pub num_columns: usize,
}

} // verus!

verus! {

/// Copies a column value by value.
pub fn copy_column(col: &Vec<Scalar>) -> (r: Vec<Scalar>)
    ensures
        r@ == col@,
{
    let mut r: Vec<Scalar> = Vec::new();
    let mut k: usize = 0;
    while k < col.len()
        invariant
            k <= col@.len(),
            r@ == col@.subrange(0, k as int),
        decreases col@.len() - k,
    {
        r.push(col[k]);
        proof {
            assert(col@.subrange(0, k + 1) =~= col@.subrange(0, k as int).push(col@[k as int]));
        }
        k += 1;
    }
    proof {
        assert(col@.subrange(0, col@.len() as int) =~= col@);
    }
    r
}

/// Places the columns of `probe` after those of `build`; both have the same rows.
pub fn merge_eq_block(build: &DataBlock, probe: &DataBlock) -> (r: DataBlock)
    requires
        build.wf(),
        probe.wf(),
        build.num_rows == probe.num_rows,
    ensures
        r.wf(),
        r.num_rows == build.num_rows,
        r.columns@.len() == build.columns@.len() + probe.columns@.len(),
        forall|c: int| 0 <= c < build.columns@.len() ==> #[trigger] r.columns@[c]@ == build.columns@[c]@,
        forall|c: int|
            0 <= c < probe.columns@.len() ==> #[trigger] r.columns@[build.columns@.len() + c]@
                == probe.columns@[c]@,
{
    let mut columns: Vec<Vec<Scalar>> = Vec::new();
    let mut c: usize = 0;
    while c < build.columns.len()
        invariant
            c <= build.columns@.len(),
            columns@.len() == c,
            forall|k: int| 0 <= k < c ==> #[trigger] columns@[k]@ == build.columns@[k]@,
        decreases build.columns@.len() - c,
    {
        columns.push(copy_column(&build.columns[c]));
        c += 1;
    }
    let mut d: usize = 0;
    while d < probe.columns.len()
        invariant
            d <= probe.columns@.len(),
            columns@.len() == build.columns@.len() + d,
            forall|k: int| 0 <= k < build.columns@.len() ==> #[trigger] columns@[k]@ == build.columns@[k]@,
            forall|k: int|
                0 <= k < d ==> #[trigger] columns@[build.columns@.len() + k]@ == probe.columns@[k]@,
        decreases probe.columns@.len() - d,
    {
        columns.push(copy_column(&probe.columns[d]));
        proof {
            assert(columns@[build.columns@.len() + d as int]@ == probe.columns@[d as int]@);
        }
        d += 1;
    }
    let r = DataBlock { columns, num_rows: build.num_rows };
    proof {
        assert forall|k: int| 0 <= k < r.columns@.len() implies #[trigger] r.columns@[k]@.len() == r.num_rows by {
            if k >= build.columns@.len() {
                assert(r.columns@[build.columns@.len() + (k - build.columns@.len())]@ == probe.columns@[k - build.columns@.len()]@);
            }
        }
    }
    r
}

} // verus!

verus! {

impl RowSpace {
    pub open spec fn wf(&self) -> bool {
        forall|b: int|
            0 <= b < self.blocks@.len() ==> #[trigger] self.blocks@[b].wf()
                && self.blocks@[b].columns@.len() == self.num_columns
    }

    /// `p` names a row of the build side.
    pub open spec fn holds_row(&self, p: RowPtr) -> bool {
        p.chunk_index < self.blocks@.len() && p.row_index < self.blocks@[p.chunk_index as int].num_rows
    }

    /// Value of column `c` of the gathered row for `p`: NULL for a row marked
    /// invalid and for a pointer outside the build side (the dummy row).
    pub open spec fn gathered(&self, p: RowPtr, valid: bool, c: int) -> Scalar {
        if valid && self.holds_row(p) {
            self.blocks@[p.chunk_index as int].columns@[c]@[p.row_index as int]
        } else {
            Scalar::Null
        }
    }

    /// A block whose row `j` copies build row `ptrs[j]`, or is all NULL where
    /// `validity[j]` is false or `ptrs[j]` is not a build row.
    pub fn gather(&self, ptrs: &[RowPtr], validity: &[bool]) -> (r: DataBlock)
        requires
            self.wf(),
            validity@.len() == ptrs@.len(),
        ensures
            r.wf(),
            r.num_rows == ptrs@.len(),
            r.columns@.len() == self.num_columns,
            forall|c: int, j: int|
                0 <= c < self.num_columns && 0 <= j < ptrs@.len() ==> #[trigger] r.columns@[c]@[j]
                    == self.gathered(ptrs@[j], validity@[j], c),
    {
        let mut columns: Vec<Vec<Scalar>> = Vec::new();
        let mut c: usize = 0;
        while c < self.num_columns
            invariant
                self.wf(),
                validity@.len() == ptrs@.len(),
                c <= self.num_columns,
                columns@.len() == c,
                forall|k: int| 0 <= k < c ==> (#[trigger] columns@[k])@.len() == ptrs@.len(),
                forall|k: int, j: int|
                    0 <= k < c && 0 <= j < ptrs@.len() ==> #[trigger] columns@[k]@[j] == self.gathered(
                        ptrs@[j],
                        validity@[j],
                        k,
                    ),
            decreases self.num_columns - c,
        {
            let mut col: Vec<Scalar> = Vec::new();
            let mut j: usize = 0;
            while j < ptrs.len()
                invariant
                    self.wf(),
                    validity@.len() == ptrs@.len(),
                    c < self.num_columns,
                    j <= ptrs@.len(),
                    col@.len() == j,
                    forall|i: int| 0 <= i < j ==> #[trigger] col@[i] == self.gathered(ptrs@[i], validity@[i], c as int),
                decreases ptrs@.len() - j,
            {
                let p = ptrs[j];
                let v = if validity[j] && p.chunk_index < self.blocks.len()
                    && p.row_index < self.blocks[p.chunk_index].num_rows {
                    let block = &self.blocks[p.chunk_index];
                    assert(block.wf());
                    assert(block.columns@[c as int]@.len() == block.num_rows);
                    block.columns[c][p.row_index]
                } else {
                    Scalar::Null
                };
                col.push(v);
                j += 1;
            }
            columns.push(col);
            c += 1;
        }
        DataBlock { columns, num_rows: ptrs.len() }
    }
}

/// A block whose row `j` copies row `rows[j]` of `input`.
pub fn take_rows(input: &DataBlock, rows: &[u32]) -> (r: DataBlock)
    requires
        input.wf(),
        forall|j: int| 0 <= j < rows@.len() ==> #[trigger] rows@[j] < input.num_rows,
    ensures
        r.wf(),
        r.num_rows == rows@.len(),
        r.columns@.len() == input.columns@.len(),
        forall|c: int, j: int|
            0 <= c < input.columns@.len() && 0 <= j < rows@.len() ==> #[trigger] r.columns@[c]@[j]
                == input.columns@[c]@[rows@[j] as int],
{
    let mut columns: Vec<Vec<Scalar>> = Vec::new();
    let mut c: usize = 0;
    while c < input.columns.len()
        invariant
            input.wf(),
            forall|j: int| 0 <= j < rows@.len() ==> #[trigger] rows@[j] < input.num_rows,
            c <= input.columns@.len(),
            columns@.len() == c,
            forall|k: int| 0 <= k < c ==> (#[trigger] columns@[k])@.len() == rows@.len(),
            forall|k: int, j: int|
                0 <= k < c && 0 <= j < rows@.len() ==> #[trigger] columns@[k]@[j]
                    == input.columns@[k]@[rows@[j] as int],
        decreases input.columns@.len() - c,
    {
        let mut col: Vec<Scalar> = Vec::new();
        let mut j: usize = 0;
        assert(input.columns@[c as int]@.len() == input.num_rows);
        while j < rows.len()
            invariant
                input.wf(),
                forall|i: int| 0 <= i < rows@.len() ==> #[trigger] rows@[i] < input.num_rows,
                c < input.columns@.len(),
                input.columns@[c as int]@.len() == input.num_rows,
                j <= rows@.len(),
                col@.len() == j,
                forall|i: int| 0 <= i < j ==> #[trigger] col@[i] == input.columns@[c as int]@[rows@[i] as int],
            decreases rows@.len() - j,
        {
            let row = rows[j] as usize;
            col.push(input.columns[c][row]);
            j += 1;
        }
        columns.push(col);
        c += 1;
    }
    DataBlock { columns, num_rows: rows.len() }
}

} // verus!
