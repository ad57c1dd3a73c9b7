use bust::exchange::{Step, TransportError};
use bust::percentile::Percentiles;
use bust::schedule::{Outcome, Report, Run};
use bust::stats::Stats;

fn ok(complete: u64) -> Outcome {
    Outcome::Success(Stats { connect: 1, handshake: 0, writing: 1, waiting: complete - 3, read: 1, complete, length: 10 })
}

fn failed() -> Outcome {
    Outcome::Failure(TransportError { step: Step::Connect, cause: "connection refused".to_string() })
}

fn drive(run: &mut Run, waves: Vec<Vec<Outcome>>) {
    for wave in waves {
        assert_eq!(run.next_wave(), Some(run.concurrency));
        run.record_wave(&wave);
    }
    assert_eq!(run.next_wave(), None);
}

#[test]
fn remainder_of_requests_is_dropped() {
    let run = Run::new(30, 100);
    assert_eq!(run.cycles, 3);
    assert_eq!(run.planned_attempts(), 90);
    assert_eq!(Run::new(10, 100).planned_attempts(), 100);
    assert_eq!(Run::new(200, 100).planned_attempts(), 0);
    assert_eq!(Run::new(200, 100).next_wave(), None);
}

#[test]
fn every_outcome_is_counted() {
    let mut run = Run::new(3, 10);
    drive(&mut run, vec![vec![ok(10), failed(), ok(30)], vec![failed(), failed(), ok(20)], vec![ok(5), ok(6), ok(7)]]);
    assert_eq!(run.aggregate.success + run.aggregate.failure, 9);
    assert_eq!(run.aggregate.success, 6);
    assert_eq!(run.aggregate.failure, 3);
    assert_eq!(run.samples, vec![10, 30, 20, 5, 6, 7]);
}

#[test]
fn failure_mid_wave_does_not_stop_the_run() {
    let mut run = Run::new(4, 8);
    run.record_wave(&vec![ok(10), failed(), ok(12), ok(14)]);
    assert_eq!(run.samples, vec![10, 12, 14]);
    assert_eq!(run.next_wave(), Some(4));
    run.record_wave(&vec![ok(16), ok(18), failed(), ok(20)]);
    assert_eq!(run.samples, vec![10, 12, 14, 16, 18, 20]);
    assert_eq!((run.aggregate.success, run.aggregate.failure), (6, 2));
    assert_eq!(run.next_wave(), None);
}

#[test]
fn too_few_successes_fail_the_benchmark() {
    let mut run = Run::new(2, 4);
    drive(&mut run, vec![vec![ok(10), failed()], vec![failed(), ok(9)]]);
    match run.finish() {
        Report::Failed { success, failure } => assert_eq!((success, failure), (2, 2)),
        other => panic!("unexpected {:?}", other),
    }
    let mut run = Run::new(2, 2);
    drive(&mut run, vec![vec![failed(), failed()]]);
    assert!(matches!(run.finish(), Report::Failed { success: 0, failure: 2 }));
    let run = Run::new(5, 3);
    assert!(matches!(run.finish(), Report::Failed { success: 0, failure: 0 }));
}

#[test]
fn completed_report() {
    let mut run = Run::new(2, 5);
    drive(&mut run, vec![vec![ok(40), ok(10)], vec![ok(30), failed()]]);
    match run.finish() {
        Report::Completed(s) => {
            assert_eq!((s.success, s.failure), (3, 1));
            assert_eq!(s.min.complete, 10);
            assert_eq!(s.max.complete, 40);
            // 80 ms over the five configured requests
            assert_eq!(s.average.complete, 16);
            assert_eq!(s.average.connect, 0);
            assert_eq!(s.length, 10);
            assert_eq!(s.percentiles, Percentiles { p50: 30, p75: 40, p90: 40, p95: 40, p100: 40 });
        }
        other => panic!("unexpected {:?}", other),
    }
}

#[test]
fn averages_lie_between_extremes_when_all_succeed() {
    let mut run = Run::new(2, 4);
    drive(&mut run, vec![vec![ok(10), ok(31)], vec![ok(12), ok(20)]]);
    match run.finish() {
        Report::Completed(s) => {
            assert_eq!(s.success, 4);
            assert_eq!(s.average.complete, 18);
            assert!(s.min.complete <= s.average.complete && s.average.complete <= s.max.complete);
            assert!(s.min.waiting <= s.average.waiting && s.average.waiting <= s.max.waiting);
            assert_eq!(s.percentiles.p50, 20);
        }
        other => panic!("unexpected {:?}", other),
    }
}
