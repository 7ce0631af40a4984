use tiledb_query::buffers::QueryBuffers;
use tiledb_query::engine::Engine;
use tiledb_query::error::Error;
use tiledb_query::outcome::ReadStepOutput;
use tiledb_query::outcome::classify_step;
use tiledb_query::raw::BaseBuilder;
use tiledb_query::raw::QueryBuilder;
use tiledb_query::raw::RawReadBuilder;
use tiledb_query::raw::RawReadHandle;
use tiledb_query::raw::ReadQuery;

/// An engine serving one fixed-size field named `a` whose logical result is
/// `total` elements of `elem_size` bytes, with bytes 0, 1, 2, ... as data.
fn fixed_engine(total: usize, elem_size: usize) -> Engine {
    let mut engine = Engine::new();
    let mut data: Vec<u8> = Vec::new();
    for i in 0..total * elem_size {
        data.push(i as u8);
    }
    let cells: Vec<u64> = vec![elem_size as u64; total];
    engine
        .add_field("a".to_string(), cells, data)
        .expect("adding the field should succeed");
    engine
}

#[test]
fn fixed_field_steps_sum_to_total() {
    // A 5-element data buffer against a 12-element logical result: the
    // record counts of the steps sum to exactly 12 and the last step is
    // Final.
    let mut engine = fixed_engine(12, 8);
    let buffers = QueryBuffers { data: vec![0u8; 40], cell_offsets: None };
    let handle = RawReadHandle::new("a", 8, buffers);
    let builder = RawReadBuilder { raw_read_output: handle, base: BaseBuilder {} };
    let mut q = builder.build();

    let mut counts: Vec<usize> = Vec::new();
    let mut saw_final = false;
    for _ in 0..100 {
        match q.step(&mut engine).expect("step should succeed") {
            ReadStepOutput::NotEnoughSpace => panic!("buffers were large enough"),
            ReadStepOutput::Intermediate((n, bytes, ())) => {
                assert!(n >= 1);
                assert!(n <= 5);
                assert_eq!(bytes, n * 8);
                counts.push(n);
            }
            ReadStepOutput::Final((n, bytes, ())) => {
                assert_eq!(bytes, n * 8);
                counts.push(n);
                saw_final = true;
                break;
            }
        }
    }
    assert!(saw_final);
    assert_eq!(counts, vec![5, 5, 2]);
    assert_eq!(counts.iter().sum::<usize>(), 12);
}

#[test]
fn steps_reconstruct_the_logical_result() {
    // Draining the data buffer after every step and concatenating in call
    // order reproduces the full logical result.
    let mut engine = fixed_engine(12, 8);
    let buffers = QueryBuffers { data: vec![0u8; 40], cell_offsets: None };
    let handle = RawReadHandle::new("a", 8, buffers);
    let builder = RawReadBuilder { raw_read_output: handle, base: BaseBuilder {} };
    let mut q = builder.build();

    let mut collected: Vec<u8> = Vec::new();
    for _ in 0..100 {
        let out = q.step(&mut engine).expect("step should succeed");
        let done = out.is_final();
        let (_, bytes) = q.raw_read_output.last_read_size();
        collected.extend_from_slice(&q.raw_read_output.location.data[0..bytes]);
        if done {
            break;
        }
    }
    let expected: Vec<u8> = (0..96).map(|i| i as u8).collect();
    assert_eq!(collected, expected);
}

#[test]
fn var_field_never_exceeds_offset_slots() {
    // A variable-length field whose offsets buffer holds only 3 markers
    // never delivers more than 3 records per step, and the counters never
    // exceed the capacities offered before the step.
    let mut engine = Engine::new();
    let mut data: Vec<u8> = Vec::new();
    for i in 0..40 {
        data.push(i as u8);
    }
    let cells: Vec<u64> = vec![4; 10];
    engine
        .add_field("s".to_string(), cells, data)
        .expect("adding the field should succeed");

    let buffers = QueryBuffers { data: vec![0u8; 400], cell_offsets: Some(vec![0u64; 3]) };
    let handle = RawReadHandle::new("s", 1, buffers);
    let builder = RawReadBuilder { raw_read_output: handle, base: BaseBuilder {} };
    let mut q = builder.build();

    let mut total = 0usize;
    let mut saw_final = false;
    for _ in 0..100 {
        let out = q.step(&mut engine).expect("step should succeed");
        let data_capacity = q.raw_read_output.location.data.len() as u64;
        assert!(q.raw_read_output.data_size <= data_capacity);
        let offsets_capacity =
            8 * q.raw_read_output.location.cell_offsets.as_ref().unwrap().len() as u64;
        assert!(q.raw_read_output.offsets_size.unwrap() <= offsets_capacity);
        match out {
            ReadStepOutput::NotEnoughSpace => panic!("buffers were large enough"),
            ReadStepOutput::Intermediate((n, bytes, ())) => {
                assert!(n >= 1);
                assert!(n <= 3);
                assert_eq!(bytes, n * 4);
                total += n;
            }
            ReadStepOutput::Final((n, bytes, ())) => {
                assert!(n <= 3);
                assert_eq!(bytes, n * 4);
                total += n;
                saw_final = true;
                break;
            }
        }
    }
    assert!(saw_final);
    assert_eq!(total, 10);
}

#[test]
fn var_field_offsets_mark_cell_starts() {
    // Each step's offsets buffer holds the delivered cells' start
    // positions relative to the step's data.
    let mut engine = Engine::new();
    let cells: Vec<u64> = vec![1, 2, 3];
    let data: Vec<u8> = vec![9, 7, 7, 5, 5, 5];
    engine
        .add_field("s".to_string(), cells, data)
        .expect("adding the field should succeed");

    let buffers = QueryBuffers { data: vec![0u8; 6], cell_offsets: Some(vec![0u64; 3]) };
    let handle = RawReadHandle::new("s", 1, buffers);
    let builder = RawReadBuilder { raw_read_output: handle, base: BaseBuilder {} };
    let mut q = builder.build();

    match q.step(&mut engine).expect("step should succeed") {
        ReadStepOutput::Final((n, bytes, ())) => {
            assert_eq!(n, 3);
            assert_eq!(bytes, 6);
        }
        _ => panic!("one step should finish the query"),
    }
    let offsets = q.raw_read_output.location.cell_offsets.as_ref().unwrap();
    assert_eq!(&offsets[0..3], &[0, 1, 3]);
    assert_eq!(&q.raw_read_output.location.data[0..6], &[9, 7, 7, 5, 5, 5]);
}

#[test]
fn final_with_zero_records_is_valid() {
    // A query that matches nothing finishes with a Final result carrying
    // zero records; it is not reclassified.
    let mut engine = Engine::new();
    engine
        .add_field("a".to_string(), Vec::new(), Vec::new())
        .expect("adding the field should succeed");
    let buffers = QueryBuffers { data: vec![0u8; 8], cell_offsets: None };
    let handle = RawReadHandle::new("a", 8, buffers);
    let builder = RawReadBuilder { raw_read_output: handle, base: BaseBuilder {} };
    let mut q = builder.build();

    let out = q.step(&mut engine).expect("step should succeed");
    assert!(matches!(out, ReadStepOutput::Final((0, 0, ()))));
}

#[test]
fn zero_progress_is_not_enough_space() {
    // When the data buffer cannot hold even one element, a step makes no
    // progress and reports NotEnoughSpace; growing the buffer and retrying
    // then succeeds with no data lost.
    let mut engine = fixed_engine(1, 8);
    let buffers = QueryBuffers { data: vec![0u8; 4], cell_offsets: None };
    let handle = RawReadHandle::new("a", 8, buffers);
    let builder = RawReadBuilder { raw_read_output: handle, base: BaseBuilder {} };
    let mut q = builder.build();

    let out = q.step(&mut engine).expect("step should succeed");
    assert!(matches!(out, ReadStepOutput::NotEnoughSpace));

    q.raw_read_output.location.data = vec![0u8; 8];
    let out = q.step(&mut engine).expect("step should succeed");
    assert!(matches!(out, ReadStepOutput::Final((1, 8, ()))));
}

#[test]
fn bytes_without_records_is_a_protocol_violation() {
    // Zero derived records against a nonzero byte count fails the step,
    // when the engine says the query is not finished.
    let r = classify_step::<(), ()>(ReadStepOutput::Intermediate(()), 0, 5);
    assert!(matches!(r, Err(Error::ProtocolViolation { records: 0, bytes: 5 })));

    // Zero progress on an unfinished query asks for more space instead.
    let r = classify_step::<(), ()>(ReadStepOutput::Intermediate(()), 0, 0);
    assert!(matches!(r, Ok(ReadStepOutput::NotEnoughSpace)));

    // A Final outcome is never reclassified, whatever the counters say.
    let r = classify_step::<(), ()>(ReadStepOutput::Final(()), 0, 0);
    assert!(matches!(r, Ok(ReadStepOutput::Final((0, 0, ())))));
}

#[test]
fn reattach_is_idempotent() {
    // Attaching twice with unchanged capacities before a single step gives
    // the same outcome as attaching once.
    let mut engine_a = fixed_engine(12, 8);
    let buffers_a = QueryBuffers { data: vec![0u8; 40], cell_offsets: None };
    let handle_a = RawReadHandle::new("a", 8, buffers_a);
    let builder_a = RawReadBuilder { raw_read_output: handle_a, base: BaseBuilder {} };
    let mut qa = builder_a.build();
    let out_a = qa.step(&mut engine_a).expect("step should succeed");

    let mut engine_b = fixed_engine(12, 8);
    let buffers_b = QueryBuffers { data: vec![0u8; 40], cell_offsets: None };
    let handle_b = RawReadHandle::new("a", 8, buffers_b);
    let builder_b = RawReadBuilder { raw_read_output: handle_b, base: BaseBuilder {} };
    let mut qb = builder_b.build();
    qb.raw_read_output
        .attach_query(&mut engine_b)
        .expect("attach should succeed");
    qb.raw_read_output
        .attach_query(&mut engine_b)
        .expect("attach should succeed");
    let out_b = qb.step(&mut engine_b).expect("step should succeed");

    match (out_a, out_b) {
        (ReadStepOutput::Intermediate((na, ba, ())), ReadStepOutput::Intermediate((nb, bb, ()))) => {
            assert_eq!(na, nb);
            assert_eq!(ba, bb);
        }
        _ => panic!("both runs should report an intermediate step"),
    }
}

#[test]
fn two_fields_compose_outermost_first() {
    // Two layered fields augment the inner payload with one (records,
    // bytes) pair each, outermost pair first, and neither overrides the
    // other's classification.
    let mut engine = Engine::new();
    let data_a: Vec<u8> = (0..24).map(|i| i as u8).collect();
    engine
        .add_field("a".to_string(), vec![8; 3], data_a)
        .expect("adding field a should succeed");
    let data_b: Vec<u8> = (0..12).map(|i| i as u8).collect();
    engine
        .add_field("b".to_string(), vec![4; 3], data_b)
        .expect("adding field b should succeed");

    let handle_b = RawReadHandle::new(
        "b",
        4,
        QueryBuffers { data: vec![0u8; 12], cell_offsets: None },
    );
    let handle_a = RawReadHandle::new(
        "a",
        8,
        QueryBuffers { data: vec![0u8; 24], cell_offsets: None },
    );
    let inner = RawReadBuilder { raw_read_output: handle_b, base: BaseBuilder {} };
    let outer = RawReadBuilder { raw_read_output: handle_a, base: inner };
    let mut q = outer.build();

    match q.step(&mut engine).expect("step should succeed") {
        ReadStepOutput::Final((n_a, bytes_a, (n_b, bytes_b, ()))) => {
            assert_eq!((n_a, bytes_a), (3, 24));
            assert_eq!((n_b, bytes_b), (3, 12));
        }
        _ => panic!("one step should finish the query"),
    }
}

#[test]
fn unknown_field_is_an_engine_error() {
    // Registering buffers for a field the query does not project fails the
    // step with an engine error.
    let mut engine = fixed_engine(1, 8);
    let buffers = QueryBuffers { data: vec![0u8; 8], cell_offsets: None };
    let handle = RawReadHandle::new("missing", 8, buffers);
    let builder = RawReadBuilder { raw_read_output: handle, base: BaseBuilder {} };
    let mut q = builder.build();

    let out = q.step(&mut engine);
    assert!(matches!(out, Err(Error::Engine(_))));
}

#[test]
fn engine_rejects_inconsistent_fields_and_empty_steps() {
    let mut engine = Engine::new();
    // cell sizes that do not account for the data bytes
    let r = engine.add_field("a".to_string(), vec![8, 8], vec![0u8; 10]);
    assert!(matches!(r, Err(Error::Engine(_))));
    // a duplicate field name
    engine
        .add_field("a".to_string(), vec![1], vec![0u8; 1])
        .expect("adding the field should succeed");
    let r = engine.add_field("a".to_string(), vec![1], vec![0u8; 1]);
    assert!(matches!(r, Err(Error::Engine(_))));
    // advancing with no registered buffers
    let r = engine.advance_query();
    assert!(matches!(r, Err(Error::Engine(_))));
}

#[test]
fn last_read_size_reports_capacity_before_any_step() {
    let buffers = QueryBuffers { data: vec![0u8; 40], cell_offsets: None };
    let handle = RawReadHandle::new("a", 8, buffers);
    assert_eq!(handle.last_read_size(), (5, 40));

    let buffers = QueryBuffers { data: vec![0u8; 16], cell_offsets: Some(vec![0u64; 3]) };
    let handle = RawReadHandle::new("s", 1, buffers);
    assert_eq!(handle.last_read_size(), (3, 16));
}

#[test]
fn superseded_registration_fails_fast() {
    // Two layers reading the same field: the inner layer registers last and
    // supersedes the outer registration. When the delivery then exceeds the
    // outer layer's smaller buffer, the step fails fast instead of writing
    // a truncated result.
    let mut engine = fixed_engine(4, 8);
    let outer_handle = RawReadHandle::new(
        "a",
        8,
        QueryBuffers { data: vec![0u8; 8], cell_offsets: None },
    );
    let inner_handle = RawReadHandle::new(
        "a",
        8,
        QueryBuffers { data: vec![0u8; 32], cell_offsets: None },
    );
    let inner = RawReadBuilder { raw_read_output: inner_handle, base: BaseBuilder {} };
    let outer = RawReadBuilder { raw_read_output: outer_handle, base: inner };
    let mut q = outer.build();

    let out = q.step(&mut engine);
    assert!(matches!(out, Err(Error::Engine(_))));
}

#[test]
fn collect_before_any_step_is_an_engine_error() {
    // Before any step has run the engine holds no outputs, so reading one
    // back fails without changing the handle.
    let engine = Engine::new();
    let mut handle = RawReadHandle::new(
        "a",
        8,
        QueryBuffers { data: vec![0u8; 8], cell_offsets: None },
    );
    let r = handle.collect_output(&engine);
    assert!(matches!(r, Err(Error::Engine(_))));
    assert_eq!(handle.last_read_size(), (1, 8));
}
