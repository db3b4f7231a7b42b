use rust_benchmark::codec::{dec_string, duration_string, encode_sample_line};
use rust_benchmark::pipeline::{sample_work_unit, worker_iteration, Sample};
use rust_benchmark::sender::{sender_step, SenderAction, SenderEvent, SenderState};
use rust_benchmark::workunits::WorkUnitKind;
use rust_benchmark::{LANGUAGE_NAME, QUEUE_CAPACITY, RETRY_INTERVAL_SECS};

#[test]
fn decimal_rendering() {
    assert_eq!(dec_string(0), "0");
    assert_eq!(dec_string(7), "7");
    assert_eq!(dec_string(10), "10");
    assert_eq!(dec_string(1234567890), "1234567890");
}

#[test]
fn duration_rendering() {
    assert_eq!(duration_string(0), "0.000000000");
    assert_eq!(duration_string(10_000_000), "0.010000000");
    assert_eq!(duration_string(1_500_000_000), "1.500000000");
    assert_eq!(duration_string(999_999_999), "0.999999999");
    assert_eq!(duration_string(1_000_000_000), "1.000000000");
}

#[test]
fn sample_line_exact() {
    let line = encode_sample_line("Rust", "fibonacci", 10_000_000);
    assert_eq!(
        line,
        "{\"lang\": \"Rust\", \"algo\": \"fibonacci\", \"duration\": 0.010000000}"
    );
}

#[test]
fn sample_line_is_valid_json() {
    let line = encode_sample_line(LANGUAGE_NAME, "array_sort", 1_500_000_000);
    let v: serde_json::Value = serde_json::from_str(&line).unwrap();
    assert_eq!(v["lang"].as_str().unwrap(), "Rust");
    assert_eq!(v["algo"].as_str().unwrap(), "array_sort");
    assert_eq!(v["duration"].as_f64().unwrap(), 1.5);
}

#[test]
fn sender_connects_and_forwards() {
    let (st, act) = sender_step(SenderState::Disconnected, SenderEvent::ConnectSucceeded);
    assert_eq!(st, SenderState::Connected);
    assert!(matches!(act, SenderAction::AwaitSample));

    let sample = Sample {
        name: "is_leap_year",
        duration_nanos: 42,
    };
    let (st, act) = sender_step(SenderState::Connected, SenderEvent::SampleReceived(sample));
    assert_eq!(st, SenderState::Connected);
    match act {
        SenderAction::WriteRecord(line) => assert_eq!(
            line,
            "{\"lang\": \"Rust\", \"algo\": \"is_leap_year\", \"duration\": 0.000000042}\n"
        ),
        _ => panic!("expected a record write"),
    }

    let (st, act) = sender_step(SenderState::Connected, SenderEvent::WriteSucceeded);
    assert_eq!(st, SenderState::Connected);
    assert!(matches!(act, SenderAction::AwaitSample));
}

#[test]
fn sender_retries_every_fixed_interval() {
    // A collector that refuses the first N attempts: each refusal sleeps
    // the fixed interval and retries; the N+1st attempt connects.
    let n = 5;
    let mut st = SenderState::Disconnected;
    for _ in 0..n {
        let (next, act) = sender_step(st, SenderEvent::ConnectFailed);
        assert_eq!(next, SenderState::Disconnected);
        match act {
            SenderAction::SleepThenRetry(secs) => assert_eq!(secs, RETRY_INTERVAL_SECS),
            _ => panic!("expected a fixed-interval retry"),
        }
        st = next;
    }
    let (st, act) = sender_step(st, SenderEvent::ConnectSucceeded);
    assert_eq!(st, SenderState::Connected);
    assert!(matches!(act, SenderAction::AwaitSample));
}

#[test]
fn sender_reconnects_on_write_failure_and_exits_on_close() {
    let (st, act) = sender_step(SenderState::Connected, SenderEvent::WriteFailed);
    assert_eq!(st, SenderState::Disconnected);
    assert!(matches!(act, SenderAction::AttemptConnect));

    let (st, act) = sender_step(SenderState::Connected, SenderEvent::QueueClosed);
    assert_eq!(st, SenderState::Done);
    assert!(matches!(act, SenderAction::Exit));
}

#[test]
fn queue_capacity_blocks_and_keeps_order() {
    // With a stalled consumer, a full queue refuses the (K+1)-th entry
    // rather than dropping anything; draining frees space and entries leave
    // in enqueue order.
    let k = 3;
    let (tx, rx) = crossbeam::channel::bounded::<u64>(k);
    for i in 0..k as u64 {
        tx.try_send(i).unwrap();
    }
    match tx.try_send(99) {
        Err(crossbeam::channel::TrySendError::Full(v)) => assert_eq!(v, 99),
        _ => panic!("a full queue must refuse the next enqueue"),
    }
    assert_eq!(rx.recv().unwrap(), 0);
    tx.try_send(99).unwrap();
    assert_eq!(rx.recv().unwrap(), 1);
    assert_eq!(rx.recv().unwrap(), 2);
    assert_eq!(rx.recv().unwrap(), 99);
}

#[test]
fn sample_queue_transfers_samples() {
    let (tx, rx) = crossbeam::channel::bounded::<Sample>(QUEUE_CAPACITY);
    let tx2 = tx.clone();
    tx.send(Sample {
        name: "fibonacci",
        duration_nanos: 5,
    })
    .unwrap();
    tx2.send(Sample {
        name: "array_sort",
        duration_nanos: 6,
    })
    .unwrap();
    let a = rx.recv().unwrap();
    let b = rx.recv().unwrap();
    assert_eq!(a.name, "fibonacci");
    assert_eq!(a.duration_nanos, 5);
    assert_eq!(b.name, "array_sort");
    assert_eq!(b.duration_nanos, 6);
}

#[test]
fn worker_iteration_delivers_then_stops() {
    let (tx, rx) = crossbeam::channel::bounded::<Sample>(4);
    let mut rng = rand::rng();
    assert!(worker_iteration(WorkUnitKind::IsLeapYear, &mut rng, &tx));
    let s = rx.recv().unwrap();
    assert_eq!(s.name, "is_leap_year");
    drop(rx);
    // every receiver gone: the queue refuses the sample and the worker stops
    assert!(!worker_iteration(WorkUnitKind::IsLeapYear, &mut rng, &tx));
}

#[test]
fn measured_samples_carry_the_unit_name() {
    let mut rng = rand::rng();
    let s = sample_work_unit(WorkUnitKind::Fibonacci, &mut rng);
    assert_eq!(s.name, "fibonacci");
    let s = sample_work_unit(WorkUnitKind::PrimeFactors, &mut rng);
    assert_eq!(s.name, "prime_factors");
}

#[test]
fn every_work_unit_completes_a_measured_run() {
    // each invocation returns: one sample per work unit, all six
    let mut rng = rand::rng();
    for kind in [
        WorkUnitKind::ArraySort,
        WorkUnitKind::Fibonacci,
        WorkUnitKind::GameOfLife,
        WorkUnitKind::MatrixMultiplication,
        WorkUnitKind::PrimeFactors,
        WorkUnitKind::IsLeapYear,
    ] {
        let s = sample_work_unit(kind, &mut rng);
        assert_eq!(s.name, kind.name());
    }
}
