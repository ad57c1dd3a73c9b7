use bust::exchange::{phases, Exchange, Progress, Step};
use bust::stats::Stats;

#[test]
fn plaintext_request_with_a_fixed_clock() {
    let mut e = Exchange::start(false);
    assert_eq!(e.next, Some(Step::Connect));
    assert_eq!(e.advance(5, 0), Progress::Next(Step::Write));
    assert_eq!(e.advance(7, 0), Progress::Next(Step::FirstByte));
    assert_eq!(e.advance(20, 1), Progress::Next(Step::Drain));
    let done = e.advance(26, 99);
    let expected = Stats { connect: 5, handshake: 0, writing: 2, waiting: 13, read: 6, complete: 26, length: 100 };
    assert_eq!(done, Progress::Done(expected));
    assert_eq!(e.next, None);
    assert_eq!(expected.connect + expected.handshake + expected.writing + expected.waiting + expected.read, expected.complete);
}

#[test]
fn tls_request_with_a_fixed_clock() {
    let mut e = Exchange::start(true);
    assert_eq!(e.advance(3, 0), Progress::Next(Step::Handshake));
    assert_eq!(e.advance(11, 0), Progress::Next(Step::Write));
    assert_eq!(e.advance(12, 0), Progress::Next(Step::FirstByte));
    assert_eq!(e.advance(40, 1), Progress::Next(Step::Drain));
    match e.advance(41, 0) {
        Progress::Done(s) => {
            assert_eq!((s.connect, s.handshake, s.writing, s.waiting, s.read, s.complete), (3, 8, 1, 28, 1, 41));
            assert_eq!(s.length, 1);
            assert_eq!(s.connect + s.handshake + s.writing + s.waiting + s.read, s.complete);
        }
        other => panic!("unexpected {:?}", other),
    }
}

#[test]
fn failure_names_the_step() {
    let mut e = Exchange::start(true);
    e.advance(1, 0);
    let err = e.fail("handshake refused".to_string());
    assert_eq!(err.step, Step::Handshake);
    assert_eq!(err.cause, "handshake refused");
    let e = Exchange::start(false);
    assert_eq!(e.fail("refused".to_string()).step, Step::Connect);
}

#[test]
fn phases_are_successive_differences() {
    let s = phases(4, 9, 9, 30, 31, 12);
    assert_eq!(s, Stats { connect: 4, handshake: 5, writing: 0, waiting: 21, read: 1, complete: 31, length: 12 });
}
