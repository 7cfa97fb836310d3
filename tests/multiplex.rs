use tifflin_async::{complete_ready, wait_on_list, EventSource, EventWait, WaitError, WaitStep};

fn table(n: u64) -> Vec<EventSource> {
    (1..=n).map(EventSource::new).collect()
}

#[test]
fn empty_list_is_rejected() {
    let mut sources = table(2);
    let waits: Vec<EventWait> = Vec::new();
    assert_eq!(wait_on_list(&waits, &mut sources, 5), Err(WaitError::NothingToWaitOn));
    assert_eq!(sources[0].waiter(), None);
    assert_eq!(sources[1].waiter(), None);
}

#[test]
fn nothing_ready_blocks_and_binds_every_source() {
    let mut sources = table(3);
    let waits = vec![sources[0].wait_on(1), sources[2].wait_on(3)];
    assert_eq!(wait_on_list(&waits, &mut sources, 77), Ok(WaitStep::Block));
    assert_eq!(sources[0].waiter(), Some(77));
    assert_eq!(sources[1].waiter(), None);
    assert_eq!(sources[2].waiter(), Some(77));
}

#[test]
fn ready_sources_drain_without_second_wake() {
    let mut sources = table(3);
    let mut waits = vec![sources[0].wait_on(1), sources[1].wait_on(2), sources[2].wait_on(3)];
    sources[1].trigger();
    sources[2].trigger();
    assert_eq!(wait_on_list(&waits, &mut sources, 9), Ok(WaitStep::Drain));
    assert_eq!(complete_ready(&mut waits, &sources), vec![2, 3]);
    assert!(waits[0].is_valid());
    assert!(!waits[1].is_valid());
    assert!(!waits[2].is_valid());
}

#[test]
fn trigger_after_bind_signals_the_binder() {
    let mut sources = table(1);
    let mut waits = vec![sources[0].wait_on(4)];
    assert_eq!(wait_on_list(&waits, &mut sources, 31), Ok(WaitStep::Block));
    assert_eq!(sources[0].trigger(), Some(31));
    assert_eq!(complete_ready(&mut waits, &sources), vec![4]);
    assert!(!waits[0].is_valid());
}

#[test]
fn trigger_before_bind_is_seen_after_binding() {
    let mut sources = table(1);
    let mut waits = vec![sources[0].wait_on(4)];
    assert_eq!(sources[0].trigger(), None);
    assert_eq!(wait_on_list(&waits, &mut sources, 31), Ok(WaitStep::Drain));
    assert_eq!(complete_ready(&mut waits, &sources), vec![4]);
}

#[test]
fn wake_with_nothing_ready_leaves_waits_armed() {
    let mut sources = table(2);
    let mut waits = vec![sources[0].wait_on(1), sources[1].wait_on(2)];
    assert_eq!(complete_ready(&mut waits, &sources), Vec::<u64>::new());
    assert!(waits[0].is_valid());
    assert!(waits[1].is_valid());
}

#[test]
fn chained_and_shared_sources_drain_in_list_order() {
    let mut sources = table(2);
    let mut waits = vec![
        sources[1].wait_on(10).chain(11),
        sources[0].wait_on(20),
        sources[1].wait_on(30),
    ];
    sources[1].trigger();
    assert_eq!(wait_on_list(&waits, &mut sources, 1), Ok(WaitStep::Drain));
    assert_eq!(complete_ready(&mut waits, &sources), vec![10, 11, 30]);
    assert!(waits[1].is_valid());
    sources[0].trigger();
    assert_eq!(complete_ready(&mut waits, &sources), vec![20]);
}
