use join_probe::buffer_reader::default_read_exact_step;
use join_probe::buffer_reader::BufferReader;
use join_probe::buffer_reader::ReadExactStep;
use join_probe::buffer_reader::ReadOutcome;

#[test]
fn new_reader_has_default_capacity() {
    let r = BufferReader::new(5u32);
    assert_eq!(r.capacity(), 8192);
    assert!(r.buffer().is_empty());
    assert_eq!(r.into_inner(), 5);
}

#[test]
fn fill_take_and_consume() {
    let mut r = BufferReader::with_capacity(4, ());
    assert!(r.needs_fill());
    r.fill_from(&[1, 2, 3]);
    assert_eq!(r.buffer(), &[1, 2, 3]);
    assert_eq!(r.take_buffered(2), vec![1, 2]);
    assert_eq!(r.buffer(), &[3]);
    r.consume(10);
    assert!(r.buffer().is_empty());
    assert!(r.bypasses_buffer(4));
    assert!(!r.bypasses_buffer(3));
    r.fill_from(&[9]);
    assert!(!r.bypasses_buffer(100));
    r.discard_buffer();
    assert!(r.needs_fill());
}

#[test]
fn get_mut_reaches_inner_reader() {
    let mut r = BufferReader::with_capacity(2, vec![1u8]);
    r.get_mut().push(2);
    assert_eq!(r.into_inner(), vec![1, 2]);
}

#[test]
fn read_exact_steps() {
    assert_eq!(default_read_exact_step(0, 4, ReadOutcome::Bytes(3)), ReadExactStep::Continue(3));
    assert_eq!(default_read_exact_step(3, 4, ReadOutcome::Bytes(1)), ReadExactStep::Done);
    assert_eq!(default_read_exact_step(3, 4, ReadOutcome::Bytes(0)), ReadExactStep::UnexpectedEof);
    assert_eq!(default_read_exact_step(3, 4, ReadOutcome::Interrupted), ReadExactStep::Continue(3));
    assert_eq!(default_read_exact_step(0, 4, ReadOutcome::Failed), ReadExactStep::Fail);
}
