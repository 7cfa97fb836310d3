use tifflin_async::{EventSource, EventWait, ReadHandle, WriteHandle};

#[test]
fn new_source_is_not_ready() {
    let s = EventSource::new(7);
    let w = s.wait_on(1);
    assert_eq!(s.id(), 7);
    assert_eq!(s.waiter(), None);
    assert_eq!(w.source(), 7);
    assert!(w.is_valid());
    assert!(!w.is_ready(&s));
}

#[test]
fn trigger_makes_earlier_and_later_waits_ready() {
    let mut s = EventSource::new(1);
    let before = s.wait_on(10);
    assert!(!before.is_ready(&s));
    assert_eq!(s.trigger(), None);
    let after = s.wait_on(11);
    assert!(before.is_ready(&s));
    assert!(after.is_ready(&s));
}

#[test]
fn trigger_signals_registered_waiter() {
    let mut s = EventSource::new(1);
    let w = s.wait_on(10);
    w.bind_signal(&mut s, 42);
    assert_eq!(s.waiter(), Some(42));
    assert_eq!(s.trigger(), Some(42));
    assert!(w.is_ready(&s));
}

#[test]
fn second_trigger_keeps_ready_and_runs_nothing() {
    let mut s = EventSource::new(3);
    let mut w = s.wait_on(5);
    w.bind_signal(&mut s, 9);
    assert_eq!(s.trigger(), Some(9));
    assert_eq!(s.trigger(), Some(9));
    assert!(w.is_ready(&s));
    assert!(w.is_valid());
    assert_eq!(w.run_completion(), vec![5]);
}

#[test]
fn completion_runs_once_and_spends_the_wait() {
    let mut s = EventSource::new(1);
    let mut w = s.wait_on(8);
    s.trigger();
    assert_eq!(w.run_completion(), vec![8]);
    assert!(!w.is_valid());
    assert!(!w.is_ready(&s));
}

#[test]
fn chain_runs_earlier_actions_first() {
    let s = EventSource::new(2);
    let w = s.wait_on(1).chain(2).chain(3);
    assert_eq!(w.source(), 2);
    let mut w = w;
    assert_eq!(w.run_completion(), vec![1, 2, 3]);
    assert!(!w.is_valid());
}

#[test]
fn last_bind_wins() {
    let mut s = EventSource::new(4);
    let a = s.wait_on(1);
    let b = s.wait_on(2);
    a.bind_signal(&mut s, 100);
    b.bind_signal(&mut s, 200);
    assert_eq!(s.trigger(), Some(200));
}

#[test]
fn read_and_write_handles_keep_buffer_and_wait() {
    let s = EventSource::new(6);
    let data = [1u8, 2, 3];
    let r = ReadHandle::new(&data, s.wait_on(1));
    assert_eq!(r.buffer(), &[1u8, 2, 3]);
    assert_eq!(r.waiter().source(), 6);
    assert!(r.waiter().is_valid());
    let w = WriteHandle::new(&data[1..], s.wait_on(2));
    assert_eq!(w.buffer(), &[2u8, 3]);
    let inner: &EventWait = w.waiter();
    assert!(!inner.is_ready(&s));
}
