use std::sync::atomic::AtomicBool;
use std::sync::atomic::Ordering;
use vstd::prelude::*;
use crate::join::error::JoinError;
use crate::join::row::RowPtr;

verus! {

/// `n` copies of `v`.
pub open spec fn repeat<T>(v: T, n: nat) -> Seq<T> {
    Seq::new(n, |_j: int| v)
}

/// One probe row index per output row, from `(probe row, count)` pairs.
pub open spec fn expand_pairs(pairs: Seq<(u32, u32)>) -> Seq<u32>
    decreases pairs.len(),
{
    if pairs.len() == 0 {
        Seq::empty()
    } else {
        expand_pairs(pairs.drop_last()) + repeat(pairs.last().0, pairs.last().1 as nat)
    }
}

pub proof fn lemma_expand_push(pairs: Seq<(u32, u32)>, p: (u32, u32))
    ensures
        expand_pairs(pairs.push(p)) == expand_pairs(pairs) + repeat(p.0, p.1 as nat),
{
    assert(pairs.push(p).drop_last() =~= pairs);
}

/// One batch of join output, described by the build rows it takes and the
/// probe rows they pair with.
///
/// Row `j` of the batch joins build row `build_indexes[j]` (a NULL build row
/// where `validity[j]` is false) with probe row `expand_pairs(probe_indexes)[j]`.
#[derive(Debug)]
pub struct ProbedBatch {
    pub build_indexes: Vec<RowPtr>,
    pub validity: Vec<bool>,
    pub probe_indexes: Vec<(u32, u32)>,
}

impl ProbedBatch {
    pub open spec fn len(&self) -> nat {
        self.build_indexes@.len()
    }

    pub open spec fn probe_rows(&self) -> Seq<u32> {
        expand_pairs(self.probe_indexes@)
    }

    pub open spec fn wf(&self) -> bool {
        &&& self.validity@.len() == self.build_indexes@.len()
        &&& self.probe_rows().len() == self.build_indexes@.len()
    }

    pub fn new() -> (r: Self)
        ensures
            r.wf(),
            r.build_indexes@.len() == 0,
            r.validity@.len() == 0,
            r.probe_indexes@.len() == 0,
    {
        ProbedBatch { build_indexes: Vec::new(), validity: Vec::new(), probe_indexes: Vec::new() }
    }

    pub fn num_rows(&self) -> (r: usize)
        ensures
            r == self.len(),
    {
        self.build_indexes.len()
    }
}

/// Build rows of all batches, in order.
pub open spec fn concat_build(bs: Seq<ProbedBatch>) -> Seq<RowPtr>
    decreases bs.len(),
{
    if bs.len() == 0 {
        Seq::empty()
    } else {
        concat_build(bs.drop_last()) + bs.last().build_indexes@
    }
}

/// Validity flags of all batches, in order.
pub open spec fn concat_validity(bs: Seq<ProbedBatch>) -> Seq<bool>
    decreases bs.len(),
{
    if bs.len() == 0 {
        Seq::empty()
    } else {
        concat_validity(bs.drop_last()) + bs.last().validity@
    }
}

/// Probe row indexes of all batches, in order.
pub open spec fn concat_probe(bs: Seq<ProbedBatch>) -> Seq<u32>
    decreases bs.len(),
{
    if bs.len() == 0 {
        Seq::empty()
    } else {
        concat_probe(bs.drop_last()) + bs.last().probe_rows()
    }
}

/// One probe row index per output row, from `(probe row, count)` pairs.
pub fn expand_probe_indexes(pairs: &[(u32, u32)]) -> (r: Vec<u32>)
    requires
        expand_pairs(pairs@).len() <= usize::MAX,
    ensures
        r@ == expand_pairs(pairs@),
{
    let mut r: Vec<u32> = Vec::new();
    let mut v: usize = 0;
    proof {
        assert(pairs@.take(0) =~= Seq::<(u32, u32)>::empty());
    }
    while v < pairs.len()
        invariant
            v <= pairs@.len(),
            expand_pairs(pairs@).len() <= usize::MAX,
            r@ == expand_pairs(pairs@.take(v as int)),
        decreases pairs@.len() - v,
    {
        let (row, cnt) = pairs[v];
        let ghost done = r@;
        proof {
            assert(pairs@.take(v as int).push(pairs@[v as int]) =~= pairs@.take(v + 1));
            lemma_expand_push(pairs@.take(v as int), pairs@[v as int]);
            lemma_expand_prefix_len(pairs@, v + 1);
        }
        let mut c: u32 = 0;
        while c < cnt
            invariant
                c <= cnt,
                done.len() + cnt <= usize::MAX,
                r@ == done + repeat(row, c as nat),
            decreases cnt - c,
        {
            r.push(row);
            proof {
                assert(done + repeat(row, (c + 1) as nat) =~= (done + repeat(row, c as nat)).push(row));
            }
            c += 1;
        }
        v += 1;
    }
    proof {
        assert(pairs@.take(pairs@.len() as int) =~= pairs@);
    }
    r
}

pub proof fn lemma_expand_prefix_len(pairs: Seq<(u32, u32)>, v: int)
    requires
        0 <= v <= pairs.len(),
    ensures
        expand_pairs(pairs.take(v)).len() <= expand_pairs(pairs).len(),
    decreases pairs.len(),
{
    if v < pairs.len() {
        assert(pairs.drop_last().take(v) =~= pairs.take(v));
        lemma_expand_prefix_len(pairs.drop_last(), v);
    } else {
        assert(pairs.take(v) =~= pairs);
    }
}

/// Every batch is well formed, non-empty and holds at most `max` rows.
pub open spec fn batches_bounded(bs: Seq<ProbedBatch>, max: nat) -> bool {
    forall|b: int|
        0 <= b < bs.len() ==> #[trigger] bs[b].wf() && 0 < bs[b].len() <= max
}

/// Every batch is well formed and holds exactly `max` rows.
pub open spec fn batches_full(bs: Seq<ProbedBatch>, max: nat) -> bool {
    forall|b: int| 0 <= b < bs.len() ==> #[trigger] bs[b].wf() && bs[b].len() == max
}

pub proof fn lemma_full_push(bs: Seq<ProbedBatch>, b: ProbedBatch, max: nat)
    requires
        batches_full(bs, max),
        b.wf(),
        b.len() == max,
    ensures
        batches_full(bs.push(b), max),
{
    assert forall|i: int| 0 <= i < bs.push(b).len() implies #[trigger] bs.push(b)[i].wf()
        && bs.push(b)[i].len() == max by {
        if i < bs.len() {
            assert(bs.push(b)[i] == bs[i]);
        }
    }
}

/// Each probe row index of a batch occurs in the concatenation of all batches.
pub proof fn lemma_concat_probe_member(bs: Seq<ProbedBatch>, b: int, j: int)
    requires
        0 <= b < bs.len(),
        0 <= j < bs[b].probe_rows().len(),
    ensures
        exists|k: int|
            0 <= k < concat_probe(bs).len() && #[trigger] concat_probe(bs)[k] == bs[b].probe_rows()[j],
    decreases bs.len(),
{
    let rest = bs.drop_last();
    if b == bs.len() - 1 {
        let k = concat_probe(rest).len() + j;
        assert(concat_probe(bs)[k] == bs[b].probe_rows()[j]);
    } else {
        assert(rest[b] == bs[b]);
        lemma_concat_probe_member(rest, b, j);
        let k = choose|k: int|
            0 <= k < concat_probe(rest).len() && #[trigger] concat_probe(rest)[k] == rest[b].probe_rows()[j];
        assert(concat_probe(bs)[k] == concat_probe(rest)[k]);
    }
}

/// Concatenation distributes over appending batch sequences.
pub proof fn lemma_concat_append(a: Seq<ProbedBatch>, b: Seq<ProbedBatch>)
    ensures
        concat_build(a + b) == concat_build(a) + concat_build(b),
        concat_validity(a + b) == concat_validity(a) + concat_validity(b),
        concat_probe(a + b) == concat_probe(a) + concat_probe(b),
    decreases b.len(),
{
    if b.len() == 0 {
        assert(a + b =~= a);
        assert(concat_build(a) + concat_build(b) =~= concat_build(a));
        assert(concat_validity(a) + concat_validity(b) =~= concat_validity(a));
        assert(concat_probe(a) + concat_probe(b) =~= concat_probe(a));
    } else {
        lemma_concat_append(a, b.drop_last());
        assert((a + b).drop_last() =~= a + b.drop_last());
        assert((a + b).last() == b.last());
        assert(concat_build(a) + concat_build(b.drop_last()) + b.last().build_indexes@ =~= concat_build(a) + (concat_build(b.drop_last()) + b.last().build_indexes@));
        assert(concat_validity(a) + concat_validity(b.drop_last()) + b.last().validity@ =~= concat_validity(a) + (concat_validity(b.drop_last()) + b.last().validity@));
        assert(concat_probe(a) + concat_probe(b.drop_last()) + b.last().probe_rows() =~= concat_probe(a) + (concat_probe(b.drop_last()) + b.last().probe_rows()));
    }
}

/// All batches but the last of full batches are full.
pub proof fn lemma_full_drop_last(bs: Seq<ProbedBatch>, max: nat)
    requires
        batches_full(bs, max),
        bs.len() > 0,
    ensures
        batches_full(bs.drop_last(), max),
{
    let d = bs.drop_last();
    assert(d.len() == bs.len() - 1);
    assert forall|i: int| 0 <= i < d.len() implies #[trigger] d[i].wf() && d[i].len() == max by {
        assert(i < bs.len());
        assert(d[i] == bs[i]);
        assert(bs[i].wf() && bs[i].len() == max);
    }
}

/// Appending full batches to full batches gives full batches.
pub proof fn lemma_full_append(a: Seq<ProbedBatch>, b: Seq<ProbedBatch>, max: nat)
    requires
        batches_full(a, max),
        batches_full(b, max),
    ensures
        batches_full(a + b, max),
{
    assert forall|i: int| 0 <= i < (a + b).len() implies #[trigger] (a + b)[i].wf() && (a + b)[i].len() == max by {
        if i < a.len() {
            assert((a + b)[i] == a[i]);
            assert(a[i].wf() && a[i].len() == max);
        } else {
            let k = i - a.len();
            assert((a + b)[i] == b[k]);
            assert(b[k].wf() && b[k].len() == max);
        }
    }
}

pub proof fn lemma_concat_push(bs: Seq<ProbedBatch>, b: ProbedBatch)
    ensures
        concat_build(bs.push(b)) == concat_build(bs) + b.build_indexes@,
        concat_validity(bs.push(b)) == concat_validity(bs) + b.validity@,
        concat_probe(bs.push(b)) == concat_probe(bs) + b.probe_rows(),
{
    assert(bs.push(b).drop_last() =~= bs);
}

proof fn lemma_extend<T>(pre: Seq<T>, cur: Seq<T>, base: Seq<T>, done: Seq<T>, s: Seq<T>)
    requires
        pre + cur == base + done,
    ensures
        pre + (cur + s) == base + (done + s),
{
    assert(pre + (cur + s) =~= (pre + cur) + s);
    assert(base + (done + s) =~= (base + done) + s);
}

/// Accumulates output rows into batches of exactly `max_block_size` rows,
/// splitting one probe row's matches across batches where needed.
pub(crate) struct OutputBatcher {
    pub(crate) max_block_size: usize,
    pub(crate) current: ProbedBatch,
    pub(crate) blocks: Vec<ProbedBatch>,
}

impl OutputBatcher {
    pub(crate) open spec fn wf(&self) -> bool {
        &&& self.max_block_size > 0
        &&& self.current.wf()
        &&& self.current.len() < self.max_block_size
        &&& batches_full(self.blocks@, self.max_block_size as nat)
    }

    pub(crate) open spec fn all_build(&self) -> Seq<RowPtr> {
        concat_build(self.blocks@) + self.current.build_indexes@
    }

    pub(crate) open spec fn all_validity(&self) -> Seq<bool> {
        concat_validity(self.blocks@) + self.current.validity@
    }

    pub(crate) open spec fn all_probe(&self) -> Seq<u32> {
        concat_probe(self.blocks@) + self.current.probe_rows()
    }

    pub(crate) fn new(max_block_size: usize) -> (r: Self)
        requires
            max_block_size > 0,
        ensures
            r.wf(),
            r.max_block_size == max_block_size,
            r.blocks@.len() == 0,
            r.current.probe_indexes@.len() == 0,
            r.all_build().len() == 0,
            r.all_validity().len() == 0,
            r.all_probe().len() == 0,
    {
        let r = OutputBatcher { max_block_size, current: ProbedBatch::new(), blocks: Vec::new() };
        assert(r.all_build() =~= Seq::<RowPtr>::empty());
        assert(r.all_validity() =~= Seq::<bool>::empty());
        assert(r.all_probe() =~= Seq::<u32>::empty());
        r
    }

    /// Appends `rows[from..to]` to the current batch as rows of probe row `probe`.
    fn push_run(&mut self, rows: &[RowPtr], from: usize, to: usize, valid: bool, probe: u32)
        requires
            old(self).current.wf(),
            from <= to <= rows@.len(),
            to - from <= u32::MAX,
        ensures
            final(self).max_block_size == old(self).max_block_size,
            final(self).blocks == old(self).blocks,
            final(self).current.wf(),
            final(self).current.build_indexes@ == old(self).current.build_indexes@
                + rows@.subrange(from as int, to as int),
            final(self).current.validity@ == old(self).current.validity@ + repeat(
                valid,
                (to - from) as nat,
            ),
            final(self).current.probe_indexes@ == old(self).current.probe_indexes@.push(
                (probe, (to - from) as u32),
            ),
    {
        let mut k = from;
        while k < to
            invariant
                from <= k <= to,
                to <= rows@.len(),
                self.max_block_size == old(self).max_block_size,
                self.blocks == old(self).blocks,
                self.current.probe_indexes == old(self).current.probe_indexes,
                self.current.build_indexes@ == old(self).current.build_indexes@
                    + rows@.subrange(from as int, k as int),
                self.current.validity@ == old(self).current.validity@ + repeat(
                    valid,
                    (k - from) as nat,
                ),
            decreases to - k,
        {
            self.current.build_indexes.push(rows[k]);
            self.current.validity.push(valid);
            proof {
                assert(rows@.subrange(from as int, k + 1) =~= rows@.subrange(from as int, k as int).push(rows@[k as int]));
                assert(repeat(valid, (k + 1 - from) as nat) =~= repeat(valid, (k - from) as nat).push(valid));
            }
            k += 1;
        }
        let ghost pairs = self.current.probe_indexes@;
        self.current.probe_indexes.push((probe, (to - from) as u32));
        proof {
            lemma_expand_push(pairs, (probe, (to - from) as u32));
        }
    }

    /// Closes the current batch.
    fn flush(&mut self)
        ensures
            final(self).max_block_size == old(self).max_block_size,
            final(self).blocks@ == old(self).blocks@.push(old(self).current),
            final(self).current.wf(),
            final(self).current.len() == 0,
            final(self).current.probe_indexes@.len() == 0,
            final(self).current.validity@.len() == 0,
    {
        let mut full = ProbedBatch::new();
        std::mem::swap(&mut self.current, &mut full);
        self.blocks.push(full);
    }

    /// Appends all of `rows` as rows of probe row `probe`, closing a batch each
    /// time one reaches `max_block_size` rows; the cancellation flag is read
    /// before each batch is closed.
    pub(crate) fn append(
        &mut self,
        rows: &[RowPtr],
        valid: bool,
        probe: u32,
        interrupt: &AtomicBool,
    ) -> (r: Result<(), JoinError>)
        requires
            old(self).wf(),
            rows@.len() <= u32::MAX,
        ensures
            final(self).max_block_size == old(self).max_block_size,
            r is Ok ==> {
                &&& final(self).wf()
                &&& final(self).all_build() == old(self).all_build() + rows@
                &&& final(self).all_validity() == old(self).all_validity() + repeat(
                    valid,
                    rows@.len(),
                )
                &&& final(self).all_probe() == old(self).all_probe() + repeat(probe, rows@.len())
            },
            r is Err ==> r->Err_0 == JoinError::AbortedQuery && old(self).current.len()
                + rows@.len() >= old(self).max_block_size,
    {
        let len = rows.len();
        let ghost build_start = self.all_build();
        let ghost valid_start = self.all_validity();
        let ghost probe_start = self.all_probe();
        if len < self.max_block_size - self.current.build_indexes.len() {
            let ghost cur = self.current;
            self.push_run(rows, 0, len, valid, probe);
            proof {
                lemma_expand_push(cur.probe_indexes@, (probe, len as u32));
                assert(rows@.subrange(0, len as int) =~= rows@);
                assert(self.all_build() =~= build_start + rows@);
                assert(self.all_validity() =~= valid_start + repeat(valid, len as nat));
                assert(self.all_probe() =~= probe_start + repeat(probe, len as nat));
            }
            return Ok(());
        }
        let mut index: usize = 0;
        while index < len
            invariant
                self.wf(),
                index <= len,
                len == rows@.len(),
                len <= u32::MAX,
                self.max_block_size == old(self).max_block_size,
                old(self).current.len() + len >= old(self).max_block_size,
                self.all_build() == build_start + rows@.subrange(0, index as int),
                self.all_validity() == valid_start + repeat(valid, index as nat),
                self.all_probe() == probe_start + repeat(probe, index as nat),
                index > 0 || self.current == old(self).current,
            decreases len - index,
        {
            let remain = len - index;
            let ghost cur = self.current;
            let ghost blocks = self.blocks@;
            if remain < self.max_block_size - self.current.build_indexes.len() {
                self.push_run(rows, index, len, valid, probe);
                proof {
                    lemma_expand_push(cur.probe_indexes@, (probe, remain as u32));
                    assert(rows@.subrange(0, index as int) + rows@.subrange(index as int, len as int)
                        =~= rows@.subrange(0, len as int));
                    assert(repeat(valid, index as nat) + repeat(valid, remain as nat)
                        =~= repeat(valid, len as nat));
                    assert(repeat(probe, index as nat) + repeat(probe, remain as nat)
                        =~= repeat(probe, len as nat));
                    lemma_extend(concat_build(blocks), cur.build_indexes@, build_start, rows@.subrange(0, index as int), rows@.subrange(index as int, len as int));
                    lemma_extend(concat_validity(blocks), cur.validity@, valid_start, repeat(valid, index as nat), repeat(valid, remain as nat));
                    lemma_extend(concat_probe(blocks), cur.probe_rows(), probe_start, repeat(probe, index as nat), repeat(probe, remain as nat));
                    assert(self.all_build() =~= build_start + rows@.subrange(0, len as int));
                    assert(self.all_validity() =~= valid_start + repeat(valid, len as nat));
                    assert(self.all_probe() =~= probe_start + repeat(probe, len as nat));
                    assert(self.blocks@ == blocks);
                }
                index = len;
            } else {
                if interrupt.load(Ordering::Relaxed) {
                    return Err(JoinError::AbortedQuery);
                }
                let addition = self.max_block_size - self.current.build_indexes.len();
                let new_index = index + addition;
                self.push_run(rows, index, new_index, valid, probe);
                let ghost filled = self.current;
                proof {
                    lemma_expand_push(cur.probe_indexes@, (probe, addition as u32));
                }
                self.flush();
                proof {
                    lemma_concat_push(blocks, filled);
                    lemma_extend(concat_build(blocks), cur.build_indexes@, build_start, rows@.subrange(0, index as int), rows@.subrange(index as int, new_index as int));
                    lemma_extend(concat_validity(blocks), cur.validity@, valid_start, repeat(valid, index as nat), repeat(valid, addition as nat));
                    lemma_extend(concat_probe(blocks), cur.probe_rows(), probe_start, repeat(probe, index as nat), repeat(probe, addition as nat));
                    assert(self.current.build_indexes@ =~= Seq::<RowPtr>::empty());
                    assert(self.current.validity@ =~= Seq::<bool>::empty());
                    assert(self.current.probe_rows() =~= Seq::<u32>::empty());
                    assert(rows@.subrange(0, index as int) + rows@.subrange(index as int, new_index as int)
                        =~= rows@.subrange(0, new_index as int));
                    assert(repeat(valid, index as nat) + repeat(valid, addition as nat)
                        =~= repeat(valid, new_index as nat));
                    assert(repeat(probe, index as nat) + repeat(probe, addition as nat)
                        =~= repeat(probe, new_index as nat));
                    assert(self.all_build() =~= build_start + rows@.subrange(0, new_index as int));
                    assert(self.all_validity() =~= valid_start + repeat(valid, new_index as nat));
                    assert(self.all_probe() =~= probe_start + repeat(probe, new_index as nat));
                    lemma_full_push(blocks, filled, self.max_block_size as nat);
                }
                index = new_index;
            }
        }
        proof {
            assert(rows@.subrange(0, len as int) =~= rows@);
        }
        Ok(())
    }

    /// Hands out the full batches closed so far; the partly filled one stays.
    pub(crate) fn take_blocks(&mut self) -> (r: Vec<ProbedBatch>)
        requires
            old(self).wf(),
        ensures
            final(self).wf(),
            final(self).max_block_size == old(self).max_block_size,
            final(self).current == old(self).current,
            final(self).blocks@.len() == 0,
            batches_full(r@, old(self).max_block_size as nat),
            old(self).all_probe() == concat_probe(r@) + final(self).all_probe(),
            old(self).all_build() == concat_build(r@) + final(self).all_build(),
            old(self).all_validity() == concat_validity(r@) + final(self).all_validity(),
    {
        let mut r: Vec<ProbedBatch> = Vec::new();
        std::mem::swap(&mut self.blocks, &mut r);
        proof {
            assert(concat_probe(self.blocks@) =~= Seq::<u32>::empty());
            assert(self.all_probe() =~= self.current.probe_rows());
            assert(concat_build(self.blocks@) =~= Seq::<RowPtr>::empty());
            assert(self.all_build() =~= self.current.build_indexes@);
            assert(concat_validity(self.blocks@) =~= Seq::<bool>::empty());
            assert(self.all_validity() =~= self.current.validity@);
        }
        r
    }

    /// Closes the batcher: the partly filled batch is returned beside the full ones.
    pub(crate) fn finish(self) -> (r: (Vec<ProbedBatch>, ProbedBatch))
        requires
            self.wf(),
        ensures
            r.0@ == self.blocks@,
            r.1 == self.current,
    {
        (self.blocks, self.current)
    }
}

} // verus!
