use std::sync::atomic::AtomicBool;

use join_probe::join::batch::ProbedBatch;
use join_probe::join::desc::HashJoinDesc;
use join_probe::join::desc::JoinHashTable;
use join_probe::join::desc::JoinState;
use join_probe::join::desc::JoinType;
use join_probe::join::desc::ProbeState;
use join_probe::join::error::JoinError;
use join_probe::join::hash_table::RowHashTable;
use join_probe::join::marker::MarkerKind;
use join_probe::join::right_mark::update_markers;
use join_probe::join::row::DataBlock;
use join_probe::join::row::RowPtr;
use join_probe::join::row::RowSpace;
use join_probe::join::row::Scalar;

fn ptr(chunk: usize, row: usize) -> RowPtr {
    RowPtr { chunk_index: chunk, row_index: row, marker: None }
}

/// One build block with a single key column; the table maps each key to its rows.
fn build_side(keys: &[i64]) -> (RowHashTable, RowSpace) {
    let mut table = RowHashTable::new();
    for (i, k) in keys.iter().enumerate() {
        table.insert(*k as u64, ptr(0, i));
    }
    let block = DataBlock {
        columns: vec![keys.iter().map(|k| Scalar::Number(*k)).collect()],
        num_rows: keys.len(),
    };
    (table, RowSpace { blocks: vec![block], num_columns: 1 })
}

fn probe_block(keys: &[i64]) -> DataBlock {
    DataBlock { columns: vec![keys.iter().map(|k| Scalar::Number(*k)).collect()], num_rows: keys.len() }
}

fn join(join_type: JoinType, max: usize, row_space: RowSpace) -> JoinHashTable {
    JoinHashTable {
        desc: HashJoinDesc {
            join_type,
            from_correlated_subquery: false,
            max_block_size: max,
            has_null: false,
        },
        row_space,
        interrupt: AtomicBool::new(false),
    }
}

fn no_valids() -> ProbeState {
    ProbeState { valids: None, markers: None }
}

fn empty_state() -> JoinState {
    JoinState { build_indexes: vec![], rest_batches: vec![] }
}

fn probe_rows(b: &ProbedBatch) -> Vec<u32> {
    let mut out = vec![];
    for (row, cnt) in &b.probe_indexes {
        for _ in 0..*cnt {
            out.push(*row);
        }
    }
    out
}

#[test]
fn inner_join_duplicate_build_keys() {
    let (table, space) = build_side(&[1, 2, 2]);
    let hj = join(JoinType::Inner, 65536, space);
    let keys = [2u64, 3];
    let blocks = hj.probe_inner_join(&table, &no_valids(), &keys).unwrap();
    assert_eq!(blocks.len(), 1);
    assert_eq!(blocks[0].build_indexes, vec![ptr(0, 1), ptr(0, 2)]);
    assert_eq!(probe_rows(&blocks[0]), vec![0, 0]);
    let input = probe_block(&[2, 3]);
    let out = hj.materialize(&blocks[0], &input);
    assert_eq!(out.num_rows, 2);
    assert_eq!(out.columns[0], vec![Scalar::Number(2), Scalar::Number(2)]);
    assert_eq!(out.columns[1], vec![Scalar::Number(2), Scalar::Number(2)]);
}

#[test]
fn inner_join_row_conservation() {
    let (table, space) = build_side(&[1, 2, 2, 3, 3, 3]);
    let hj = join(JoinType::Inner, 4, space);
    let keys = [3u64, 1, 7, 2, 3];
    let blocks = hj.probe_inner_join(&table, &no_valids(), &keys).unwrap();
    let total: usize = blocks.iter().map(|b| b.build_indexes.len()).sum();
    assert_eq!(total, 3 + 1 + 0 + 2 + 3);
    assert!(blocks.iter().all(|b| !b.build_indexes.is_empty() && b.build_indexes.len() <= 4));
}

#[test]
fn invalid_probe_key_never_matches() {
    let (table, space) = build_side(&[5]);
    let hj = join(JoinType::Inner, 16, space);
    let state = ProbeState { valids: Some(vec![false, true]), markers: None };
    let blocks = hj.probe_inner_join(&table, &state, &[5, 5]).unwrap();
    let total: usize = blocks.iter().map(|b| b.build_indexes.len()).sum();
    assert_eq!(total, 1);
    assert_eq!(probe_rows(&blocks[0]), vec![1]);
}

#[test]
fn correlated_subquery_ignores_validity() {
    let (table, space) = build_side(&[5]);
    let mut hj = join(JoinType::Inner, 16, space);
    hj.desc.from_correlated_subquery = true;
    let state = ProbeState { valids: Some(vec![false, true]), markers: None };
    let blocks = hj.probe_inner_join(&table, &state, &[5, 5]).unwrap();
    assert_eq!(probe_rows(&blocks[0]), vec![0, 1]);
}

#[test]
fn zero_key_is_a_real_key() {
    let (table, space) = build_side(&[0, 4]);
    let hj = join(JoinType::Inner, 16, space);
    let blocks = hj.probe_inner_join(&table, &no_valids(), &[0, 1]).unwrap();
    assert_eq!(blocks[0].build_indexes, vec![ptr(0, 0)]);
    assert!(table.entry(1).is_none());
    assert_eq!(table.entry(0).unwrap().len(), 1);
}

#[test]
fn left_join_keeps_unmatched_probe_row() {
    let (table, space) = build_side(&[1, 2, 2]);
    let hj = join(JoinType::Left, 65536, space);
    let mut state = empty_state();
    let out = hj.probe_left_join(&table, &no_valids(), &[2, 3], &mut state, true).unwrap();
    assert_eq!(out.blocks.len(), 1);
    let b = &out.blocks[0];
    assert_eq!(b.build_indexes.len(), 3);
    assert_eq!(b.validity, vec![true, true, false]);
    assert_eq!(probe_rows(b), vec![0, 0, 1]);
    assert_eq!(out.row_state, vec![2, 1]);
    let rows = hj.materialize(b, &probe_block(&[2, 3]));
    assert_eq!(rows.columns[0], vec![Scalar::Number(2), Scalar::Number(2), Scalar::Null]);
    assert_eq!(rows.columns[1], vec![Scalar::Number(2), Scalar::Number(2), Scalar::Number(3)]);
}

#[test]
fn left_join_without_condition_defers_tail() {
    let (table, space) = build_side(&[1, 2, 2]);
    let hj = join(JoinType::Left, 2, space);
    let mut state = empty_state();
    let out = hj.probe_left_join(&table, &no_valids(), &[2, 3], &mut state, false).unwrap();
    assert_eq!(out.blocks.len(), 1);
    assert_eq!(out.blocks[0].build_indexes.len(), 2);
    assert_eq!(state.rest_batches.len(), 1);
    assert_eq!(state.rest_batches[0].validity, vec![false]);
    assert_eq!(probe_rows(&state.rest_batches[0]), vec![1]);
    assert!(out.row_state.is_empty());
}

#[test]
fn full_join_records_build_rows() {
    let (table, space) = build_side(&[1, 2, 2]);
    let hj = join(JoinType::Full, 65536, space);
    let mut state = empty_state();
    hj.probe_left_join(&table, &no_valids(), &[2, 3], &mut state, true).unwrap();
    assert_eq!(state.build_indexes.len(), 3);
    assert_eq!(state.build_indexes[0], ptr(0, 1));
    assert_eq!(state.build_indexes[1], ptr(0, 2));
    assert_eq!(state.build_indexes[2].chunk_index, usize::MAX);
    assert_eq!(state.build_indexes[2].row_index, usize::MAX);
}

#[test]
fn single_join_rejects_two_matches() {
    let (table, space) = build_side(&[1, 2, 2]);
    let hj = join(JoinType::Single, 65536, space);
    let mut state = empty_state();
    let r = hj.probe_left_join(&table, &no_valids(), &[1, 2], &mut state, true);
    assert_eq!(r.unwrap_err(), JoinError::ScalarSubqueryCardinality);
    let ok = hj.probe_left_join(&table, &no_valids(), &[1, 3], &mut empty_state(), true);
    assert!(ok.is_ok());
}

#[test]
fn skewed_key_split_into_bounded_blocks() {
    let (table, space) = build_side(&[9, 9, 9, 9, 9]);
    let hj = join(JoinType::Inner, 2, space);
    let blocks = hj.probe_inner_join(&table, &no_valids(), &[9]).unwrap();
    let sizes: Vec<usize> = blocks.iter().map(|b| b.build_indexes.len()).collect();
    assert_eq!(sizes, vec![2, 2, 1]);
    let pairs: Vec<Vec<(u32, u32)>> = blocks.iter().map(|b| b.probe_indexes.clone()).collect();
    assert_eq!(pairs, vec![vec![(0, 2)], vec![(0, 2)], vec![(0, 1)]]);
}

#[test]
fn bounded_blocks_concatenate_to_unbounded_output() {
    let (table, space) = build_side(&[1, 1, 2, 3, 3, 3, 3]);
    let keys = [3u64, 1, 4, 3, 2, 1];
    let small = join(JoinType::Left, 3, space.clone());
    let large = join(JoinType::Left, 1000, space);
    let a = small.probe_left_join(&table, &no_valids(), &keys, &mut empty_state(), true).unwrap();
    let b = large.probe_left_join(&table, &no_valids(), &keys, &mut empty_state(), true).unwrap();
    assert!(a.blocks.iter().all(|x| x.build_indexes.len() <= 3));
    assert_eq!(b.blocks.len(), 1);
    let flat_build: Vec<RowPtr> = a.blocks.iter().flat_map(|x| x.build_indexes.clone()).collect();
    let flat_probe: Vec<u32> = a.blocks.iter().flat_map(probe_rows).collect();
    let flat_valid: Vec<bool> = a.blocks.iter().flat_map(|x| x.validity.clone()).collect();
    assert_eq!(flat_build, b.blocks[0].build_indexes);
    assert_eq!(flat_probe, probe_rows(&b.blocks[0]));
    assert_eq!(flat_valid, b.blocks[0].validity);
}

#[test]
fn left_outer_every_probe_row_appears() {
    let (table, space) = build_side(&[1, 1, 5]);
    let hj = join(JoinType::Left, 2, space);
    let keys = [7u64, 1, 8, 5];
    let out = hj.probe_left_join(&table, &no_valids(), &keys, &mut empty_state(), true).unwrap();
    let flat: Vec<u32> = out.blocks.iter().flat_map(probe_rows).collect();
    let valid: Vec<bool> = out.blocks.iter().flat_map(|x| x.validity.clone()).collect();
    assert_eq!(flat, vec![0, 1, 1, 2, 3]);
    assert_eq!(valid, vec![false, true, true, false, true]);
}

#[test]
fn interrupted_probe_is_aborted() {
    let (table, space) = build_side(&[9, 9, 9, 9, 9]);
    let hj = join(JoinType::Inner, 2, space);
    hj.interrupt.store(true, std::sync::atomic::Ordering::Relaxed);
    let r = hj.probe_inner_join(&table, &no_valids(), &[9]);
    assert_eq!(r.unwrap_err(), JoinError::AbortedQuery);
    let small = hj.probe_inner_join(&table, &no_valids(), &[]);
    assert!(small.is_ok());
}

#[test]
fn fill_null_keeps_one_row_per_probe_row() {
    let (_, space) = build_side(&[1]);
    let hj = join(JoinType::Left, 16, space);
    let mut bm = vec![true, false, true];
    let mut row_state = vec![2u32, 1];
    hj.fill_null_for_left_join(&mut bm, &[(0, 2), (1, 1)], &mut row_state);
    assert_eq!(bm, vec![true, false, true]);
    assert_eq!(row_state, vec![1, 1]);

    let mut bm = vec![false, false, false];
    let mut row_state = vec![3u32];
    hj.fill_null_for_left_join(&mut bm, &[(0, 3)], &mut row_state);
    assert_eq!(bm, vec![false, false, true]);
    assert_eq!(row_state, vec![1]);
}

#[test]
fn right_mark_null_build_key_gives_null_marker() {
    let (table, space) = build_side(&[1]);
    let mut hj = join(JoinType::RightMark, 16, space);
    hj.desc.has_null = true;
    let mut state = ProbeState { valids: None, markers: Some(vec![MarkerKind::False, MarkerKind::False]) };
    let input = probe_block(&[4, 1]);
    let out = hj.probe_right_mark_join(&table, &mut state, &[4, 1], &input).unwrap();
    assert_eq!(out.len(), 1);
    assert_eq!(out[0].columns[0], vec![Scalar::Null, Scalar::Boolean(true)]);
    assert_eq!(out[0].columns[1], input.columns[0]);
    assert_eq!(state.markers.unwrap(), vec![MarkerKind::False, MarkerKind::True]);
}

#[test]
fn right_mark_without_null_gives_false_marker() {
    let (table, space) = build_side(&[1]);
    let hj = join(JoinType::RightMark, 16, space);
    let mut state = ProbeState { valids: None, markers: Some(vec![MarkerKind::False]) };
    let out = hj.probe_right_mark_join(&table, &mut state, &[4], &probe_block(&[4])).unwrap();
    assert_eq!(out[0].columns[0], vec![Scalar::Boolean(false)]);
}

#[test]
fn right_mark_with_conjunct_uses_predicate() {
    let (table, space) = build_side(&[1, 1, 2, 3]);
    let hj = join(JoinType::RightMark, 2, space);
    let input = probe_block(&[1, 2, 3, 4]);
    // true for build row 1 only, unknown for build row 2, false otherwise
    let pred = |b: &ProbedBatch| -> Result<Vec<Option<bool>>, JoinError> {
        Ok(b.build_indexes
            .iter()
            .map(|p| match p.row_index {
                1 => Some(true),
                2 => None,
                _ => Some(false),
            })
            .collect())
    };
    let out = hj.probe_right_mark_join_with_conjunct(&table, &no_valids(), &[1, 2, 3, 4], &input, &pred).unwrap();
    assert_eq!(out[0].columns[0], vec![Scalar::Boolean(true), Scalar::Null, Scalar::Boolean(false), Scalar::Boolean(false)]);
    assert_eq!(out[0].columns[1], input.columns[0]);
}

#[test]
fn right_mark_with_conjunct_null_probe_value() {
    let (table, space) = build_side(&[1]);
    let hj = join(JoinType::RightMark, 16, space);
    let input = DataBlock { columns: vec![vec![Scalar::Null]], num_rows: 1 };
    let pred = |b: &ProbedBatch| -> Result<Vec<Option<bool>>, JoinError> { Ok(vec![Some(false); b.build_indexes.len()]) };
    let out = hj.probe_right_mark_join_with_conjunct(&table, &no_valids(), &[2], &input, &pred).unwrap();
    assert_eq!(out[0].columns[0], vec![Scalar::Null]);
}

#[test]
fn right_mark_with_conjunct_propagates_errors() {
    let (table, space) = build_side(&[1]);
    let hj = join(JoinType::RightMark, 16, space);
    let input = probe_block(&[1]);
    let failing = |_b: &ProbedBatch| -> Result<Vec<Option<bool>>, JoinError> { Err(JoinError::PredicateEvaluation) };
    let r = hj.probe_right_mark_join_with_conjunct(&table, &no_valids(), &[1], &input, &failing);
    assert_eq!(r.unwrap_err(), JoinError::PredicateEvaluation);
    let short = |_b: &ProbedBatch| -> Result<Vec<Option<bool>>, JoinError> { Ok(vec![]) };
    let r = hj.probe_right_mark_join_with_conjunct(&table, &no_valids(), &[1], &input, &short);
    assert_eq!(r.unwrap_err(), JoinError::Internal);
}

#[test]
fn markers_only_move_up() {
    let batch = ProbedBatch {
        build_indexes: vec![ptr(0, 0), ptr(0, 1), ptr(0, 2), ptr(0, 3)],
        validity: vec![true; 4],
        probe_indexes: vec![(0, 2), (1, 1), (2, 1)],
    };
    let mut markers = vec![MarkerKind::False, MarkerKind::True, MarkerKind::Null];
    update_markers(&mut markers, &batch, &vec![None, Some(false), None, Some(true)]).unwrap();
    assert_eq!(markers, vec![MarkerKind::Null, MarkerKind::True, MarkerKind::True]);
    let mut markers = vec![MarkerKind::True, MarkerKind::False, MarkerKind::False];
    update_markers(&mut markers, &batch, &vec![Some(false), None, Some(false), Some(false)]).unwrap();
    assert_eq!(markers, vec![MarkerKind::True, MarkerKind::False, MarkerKind::False]);
    let mut few = vec![MarkerKind::False];
    assert_eq!(update_markers(&mut few, &batch, &vec![None; 4]), Err(JoinError::Internal));
    assert_eq!(few, vec![MarkerKind::False]);
}

#[test]
fn gather_synthesizes_null_for_dummy_row() {
    let (_, space) = build_side(&[7, 8]);
    let block = space.gather(&[ptr(0, 1), ptr(usize::MAX, usize::MAX), ptr(0, 0)], &[true, true, false]);
    assert_eq!(block.columns[0], vec![Scalar::Number(8), Scalar::Null, Scalar::Null]);
}

#[test]
fn mark_state_starts_null_when_build_has_null() {
    let (table, space) = build_side(&[1]);
    let mut hj = join(JoinType::RightMark, 16, space);
    hj.desc.has_null = true;
    let mut state = ProbeState::for_mark_join(None, 2, true);
    let out = hj.probe_right_mark_join(&table, &mut state, &[3, 1], &probe_block(&[3, 1])).unwrap();
    assert_eq!(state.markers.unwrap(), vec![MarkerKind::Null, MarkerKind::True]);
    assert_eq!(out[0].columns[0], vec![Scalar::Null, Scalar::Boolean(true)]);
    let plain = ProbeState::for_mark_join(None, 2, false);
    assert_eq!(plain.markers.unwrap(), vec![MarkerKind::False, MarkerKind::False]);
}

#[test]
fn mark_with_conjunct_same_for_any_block_size() {
    let (table, space) = build_side(&[1, 1, 1, 2, 2, 3]);
    let input = probe_block(&[1, 2, 3, 5]);
    let pred = |b: &ProbedBatch| -> Result<Vec<Option<bool>>, JoinError> {
        Ok(b.build_indexes
            .iter()
            .map(|p| match p.row_index {
                0 => Some(true),
                1 => None,
                3 => None,
                _ => Some(false),
            })
            .collect())
    };
    let mut results = vec![];
    for max in [1usize, 2, 3, 100] {
        let hj = join(JoinType::RightMark, max, space.clone());
        let out = hj.probe_right_mark_join_with_conjunct(&table, &no_valids(), &[1, 2, 3, 5], &input, &pred).unwrap();
        results.push(out[0].columns[0].clone());
    }
    let expected = vec![Scalar::Boolean(true), Scalar::Null, Scalar::Boolean(false), Scalar::Boolean(false)];
    for r in results {
        assert_eq!(r, expected);
    }
}

#[test]
fn mark_with_conjunct_batches_are_full_but_last() {
    let (table, space) = build_side(&[1, 1, 1, 2, 2]);
    let hj = join(JoinType::RightMark, 2, space);
    let input = probe_block(&[1, 2]);
    let sizes = std::cell::RefCell::new(vec![]);
    let pred = |b: &ProbedBatch| -> Result<Vec<Option<bool>>, JoinError> {
        sizes.borrow_mut().push(b.build_indexes.len());
        Ok(vec![Some(false); b.build_indexes.len()])
    };
    hj.probe_right_mark_join_with_conjunct(&table, &no_valids(), &[1, 2], &input, &pred).unwrap();
    assert_eq!(sizes.into_inner(), vec![2, 2, 1]);
}

#[test]
fn left_join_small_output_is_all_deferred() {
    let (table, space) = build_side(&[1, 2, 2]);
    let hj = join(JoinType::Left, 65536, space);
    let mut state = empty_state();
    let out = hj.probe_left_join(&table, &no_valids(), &[2, 3], &mut state, false).unwrap();
    assert!(out.blocks.is_empty());
    assert_eq!(state.rest_batches.len(), 1);
    assert_eq!(state.rest_batches[0].build_indexes.len(), 3);
    assert_eq!(state.rest_batches[0].validity, vec![true, true, false]);
    assert_eq!(probe_rows(&state.rest_batches[0]), vec![0, 0, 1]);
}
