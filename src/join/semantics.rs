use vstd::prelude::*;
use crate::join::batch::repeat;
use crate::join::desc::probe_lookup;
use crate::join::row::RowPtr;
use crate::join::row::spec_dummy_row_ptr;

verus! {

/// The build rows that probe row `i` contributes: its matches, or (for an
/// outer join) one dummy row when it has none.
pub open spec fn rows_for(
    table: Map<u64, Seq<RowPtr>>,
    keys: Seq<u64>,
    valids: Option<Vec<bool>>,
    correlated: bool,
    outer: bool,
    i: int,
) -> Seq<RowPtr> {
    match probe_lookup(table, keys, valids, correlated, i) {
        Some(v) => v,
        None => if outer {
            seq![spec_dummy_row_ptr()]
        } else {
            Seq::empty()
        },
    }
}

/// Build side of the output rows of the first `n` probe rows, in order.
pub open spec fn join_build(
    table: Map<u64, Seq<RowPtr>>,
    keys: Seq<u64>,
    valids: Option<Vec<bool>>,
    correlated: bool,
    outer: bool,
    n: nat,
) -> Seq<RowPtr>
    decreases n,
{
    if n == 0 {
        Seq::empty()
    } else {
        join_build(table, keys, valids, correlated, outer, (n - 1) as nat) + rows_for(
            table,
            keys,
            valids,
            correlated,
            outer,
            n - 1,
        )
    }
}

/// Whether each output row of the first `n` probe rows has a real build row.
pub open spec fn join_validity(
    table: Map<u64, Seq<RowPtr>>,
    keys: Seq<u64>,
    valids: Option<Vec<bool>>,
    correlated: bool,
    outer: bool,
    n: nat,
) -> Seq<bool>
    decreases n,
{
    if n == 0 {
        Seq::empty()
    } else {
        join_validity(table, keys, valids, correlated, outer, (n - 1) as nat) + repeat(
            probe_lookup(table, keys, valids, correlated, n - 1) is Some,
            rows_for(table, keys, valids, correlated, outer, n - 1).len(),
        )
    }
}

/// Probe row of each output row of the first `n` probe rows.
pub open spec fn join_probe(
    table: Map<u64, Seq<RowPtr>>,
    keys: Seq<u64>,
    valids: Option<Vec<bool>>,
    correlated: bool,
    outer: bool,
    n: nat,
) -> Seq<u32>
    decreases n,
{
    if n == 0 {
        Seq::empty()
    } else {
        join_probe(table, keys, valids, correlated, outer, (n - 1) as nat) + repeat(
            (n - 1) as u32,
            rows_for(table, keys, valids, correlated, outer, n - 1).len(),
        )
    }
}

/// Number of matching build rows of the first `n` probe rows.
pub open spec fn match_count(
    table: Map<u64, Seq<RowPtr>>,
    keys: Seq<u64>,
    valids: Option<Vec<bool>>,
    correlated: bool,
    n: nat,
) -> nat
    decreases n,
{
    if n == 0 {
        0
    } else {
        match_count(table, keys, valids, correlated, (n - 1) as nat) + match probe_lookup(
            table,
            keys,
            valids,
            correlated,
            n - 1,
        ) {
            Some(v) => v.len(),
            None => 0,
        }
    }
}

/// Output rows only accumulate as probe rows are added.
pub proof fn lemma_join_build_grows(
    table: Map<u64, Seq<RowPtr>>,
    keys: Seq<u64>,
    valids: Option<Vec<bool>>,
    correlated: bool,
    outer: bool,
    m: nat,
    n: nat,
)
    requires
        m <= n,
    ensures
        join_build(table, keys, valids, correlated, outer, m).len() <= join_build(
            table,
            keys,
            valids,
            correlated,
            outer,
            n,
        ).len(),
    decreases n - m,
{
    if m < n {
        lemma_join_build_grows(table, keys, valids, correlated, outer, m, (n - 1) as nat);
    }
}

} // verus!

verus! {

/// Row conservation: an inner join yields, over all probe rows, exactly as
/// many rows as there are matching build rows.
pub proof fn lemma_inner_row_conservation(
    table: Map<u64, Seq<RowPtr>>,
    keys: Seq<u64>,
    valids: Option<Vec<bool>>,
    correlated: bool,
    n: nat,
)
    ensures
        join_build(table, keys, valids, correlated, false, n).len() == match_count(
            table,
            keys,
            valids,
            correlated,
            n,
        ),
    decreases n,
{
    if n > 0 {
        lemma_inner_row_conservation(table, keys, valids, correlated, (n - 1) as nat);
    }
}

} // verus!

verus! {

/// Every key of the table holds at least one build row.
pub open spec fn table_entries_nonempty(table: Map<u64, Seq<RowPtr>>) -> bool {
    forall|k: u64| #[trigger] table.contains_key(k) ==> table[k].len() > 0
}

proof fn lemma_layout(
    table: Map<u64, Seq<RowPtr>>,
    keys: Seq<u64>,
    valids: Option<Vec<bool>>,
    correlated: bool,
    outer: bool,
    n: nat,
)
    requires
        n <= u32::MAX,
    ensures
        join_validity(table, keys, valids, correlated, outer, n).len() == join_build(
            table,
            keys,
            valids,
            correlated,
            outer,
            n,
        ).len(),
        join_probe(table, keys, valids, correlated, outer, n).len() == join_build(
            table,
            keys,
            valids,
            correlated,
            outer,
            n,
        ).len(),
        forall|j: int|
            0 <= j < join_probe(table, keys, valids, correlated, outer, n).len() ==> #[trigger] join_probe(
                table,
                keys,
                valids,
                correlated,
                outer,
                n,
            )[j] < n,
    decreases n,
{
    if n > 0 {
        lemma_layout(table, keys, valids, correlated, outer, (n - 1) as nat);
        let p = join_probe(table, keys, valids, correlated, outer, n);
        let q = join_probe(table, keys, valids, correlated, outer, (n - 1) as nat);
        assert forall|j: int| 0 <= j < p.len() implies #[trigger] p[j] < n by {
            if j < q.len() {
                assert(p[j] == q[j]);
            }
        }
    }
}

proof fn lemma_prefix(
    table: Map<u64, Seq<RowPtr>>,
    keys: Seq<u64>,
    valids: Option<Vec<bool>>,
    correlated: bool,
    outer: bool,
    m: nat,
    n: nat,
)
    requires
        m <= n <= u32::MAX,
    ensures
        ({
            let pm = join_probe(table, keys, valids, correlated, outer, m);
            let pn = join_probe(table, keys, valids, correlated, outer, n);
            let vm = join_validity(table, keys, valids, correlated, outer, m);
            let vn = join_validity(table, keys, valids, correlated, outer, n);
            let bm = join_build(table, keys, valids, correlated, outer, m);
            let bn = join_build(table, keys, valids, correlated, outer, n);
            &&& pm.len() <= pn.len()
            &&& forall|j: int| 0 <= j < pm.len() ==> #[trigger] pn[j] == pm[j] && vn[j] == vm[j] && bn[j] == bm[j]
            &&& forall|j: int| pm.len() <= j < pn.len() ==> #[trigger] pn[j] >= m
        }),
    decreases n - m,
{
    lemma_layout(table, keys, valids, correlated, outer, m);
    lemma_layout(table, keys, valids, correlated, outer, n);
    if m < n {
        lemma_prefix(table, keys, valids, correlated, outer, m, (n - 1) as nat);
        lemma_layout(table, keys, valids, correlated, outer, (n - 1) as nat);
        let pn = join_probe(table, keys, valids, correlated, outer, n);
        let pq = join_probe(table, keys, valids, correlated, outer, (n - 1) as nat);
        let pm = join_probe(table, keys, valids, correlated, outer, m);
        let vn = join_validity(table, keys, valids, correlated, outer, n);
        let vq = join_validity(table, keys, valids, correlated, outer, (n - 1) as nat);
        let vm = join_validity(table, keys, valids, correlated, outer, m);
        let bn = join_build(table, keys, valids, correlated, outer, n);
        let bq = join_build(table, keys, valids, correlated, outer, (n - 1) as nat);
        let bm = join_build(table, keys, valids, correlated, outer, m);
        assert forall|j: int| 0 <= j < pm.len() implies #[trigger] pn[j] == pm[j] && vn[j] == vm[j] && bn[j] == bm[j] by {
            assert(pn[j] == pq[j]);
            assert(vn[j] == vq[j]);
            assert(bn[j] == bq[j]);
        }
        assert forall|j: int| pm.len() <= j < pn.len() implies #[trigger] pn[j] >= m by {
            if j < pq.len() {
                assert(pn[j] == pq[j]);
            } else {
                assert(pn[j] == (n - 1) as u32);
            }
        }
    }
}

/// Left-outer completeness: every probe row appears among the output rows of
/// a left join, and a probe row without matches appears exactly once, with a
/// NULL build side.
pub proof fn lemma_left_outer_completeness(
    table: Map<u64, Seq<RowPtr>>,
    keys: Seq<u64>,
    valids: Option<Vec<bool>>,
    correlated: bool,
    n: nat,
    i: int,
)
    requires
        table_entries_nonempty(table),
        n <= u32::MAX,
        0 <= i < n,
    ensures
        ({
            let probe = join_probe(table, keys, valids, correlated, true, n);
            let validity = join_validity(table, keys, valids, correlated, true, n);
            let build = join_build(table, keys, valids, correlated, true, n);
            &&& exists|j: int| 0 <= j < probe.len() && #[trigger] probe[j] == i as u32
            &&& probe_lookup(table, keys, valids, correlated, i) is None ==> exists|j: int|
                0 <= j < probe.len() && #[trigger] probe[j] == i as u32 && !validity[j] && build[j]
                    == spec_dummy_row_ptr() && forall|k: int|
                    0 <= k < probe.len() && k != j ==> #[trigger] probe[k] != i as u32
        }),
{
    let probe = join_probe(table, keys, valids, correlated, true, n);
    let validity = join_validity(table, keys, valids, correlated, true, n);
    let build = join_build(table, keys, valids, correlated, true, n);
    let pi = join_probe(table, keys, valids, correlated, true, i as nat);
    let pi1 = join_probe(table, keys, valids, correlated, true, (i + 1) as nat);
    lemma_layout(table, keys, valids, correlated, true, i as nat);
    lemma_layout(table, keys, valids, correlated, true, (i + 1) as nat);
    lemma_prefix(table, keys, valids, correlated, true, i as nat, n);
    lemma_prefix(table, keys, valids, correlated, true, (i + 1) as nat, n);
    let rows = rows_for(table, keys, valids, correlated, true, i);
    assert(rows.len() > 0) by {
        if probe_lookup(table, keys, valids, correlated, i) is Some {
            assert(table.contains_key(keys[i]));
        }
    }
    let o = pi.len() as int;
    assert(pi1[o] == i as u32);
    assert(probe[o] == i as u32);
    if probe_lookup(table, keys, valids, correlated, i) is None {
        assert(rows.len() == 1);
        assert(pi1.len() == o + 1);
        assert forall|k: int| 0 <= k < probe.len() && k != o implies #[trigger] probe[k] != i as u32 by {
            if k < o {
                assert(probe[k] == pi[k]);
                assert(pi[k] < i);
            } else {
                assert(probe[k] >= i + 1);
            }
        }
        let vi1 = join_validity(table, keys, valids, correlated, true, (i + 1) as nat);
        let bi1 = join_build(table, keys, valids, correlated, true, (i + 1) as nat);
        assert(vi1[o] == false);
        assert(bi1[o] == spec_dummy_row_ptr());
        assert(!validity[o] && build[o] == spec_dummy_row_ptr());
    }
}

} // verus!

verus! {

/// Number of `true` entries.
pub open spec fn count_true(s: Seq<bool>) -> nat
    decreases s.len(),
{
    if s.len() == 0 {
        0
    } else {
        count_true(s.drop_last()) + if s.last() {
            1nat
        } else {
            0nat
        }
    }
}

proof fn lemma_count_true_append(a: Seq<bool>, b: Seq<bool>)
    ensures
        count_true(a + b) == count_true(a) + count_true(b),
    decreases b.len(),
{
    if b.len() == 0 {
        assert(a + b =~= a);
    } else {
        lemma_count_true_append(a, b.drop_last());
        assert((a + b).drop_last() =~= a + b.drop_last());
    }
}

proof fn lemma_count_true_repeat(x: bool, k: nat)
    ensures
        count_true(repeat(x, k)) == if x {
            k
        } else {
            0
        },
    decreases k,
{
    if k > 0 {
        lemma_count_true_repeat(x, (k - 1) as nat);
        assert(repeat(x, k).drop_last() =~= repeat(x, (k - 1) as nat));
    }
}

/// Row conservation on a left join: its output rows with a real build row
/// are exactly as many as the matching build rows of all probe rows.
pub proof fn lemma_left_valid_rows(
    table: Map<u64, Seq<RowPtr>>,
    keys: Seq<u64>,
    valids: Option<Vec<bool>>,
    correlated: bool,
    n: nat,
)
    ensures
        count_true(join_validity(table, keys, valids, correlated, true, n)) == match_count(
            table,
            keys,
            valids,
            correlated,
            n,
        ),
    decreases n,
{
    if n > 0 {
        lemma_left_valid_rows(table, keys, valids, correlated, (n - 1) as nat);
        let found = probe_lookup(table, keys, valids, correlated, n - 1) is Some;
        let k = rows_for(table, keys, valids, correlated, true, n - 1).len();
        lemma_count_true_append(
            join_validity(table, keys, valids, correlated, true, (n - 1) as nat),
            repeat(found, k),
        );
        lemma_count_true_repeat(found, k);
    }
}

} // verus!
