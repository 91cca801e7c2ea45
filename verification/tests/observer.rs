use astrobox_bench::observer::{EventLog, FnObserver, Observer};

#[test]
fn a_log_keeps_every_event_in_order() {
    let mut log: EventLog<u32> = EventLog::new();
    assert!(log.events.is_empty());
    log.notify(3);
    log.notify(1);
    log.notify(3);
    assert_eq!(log.events, vec![3, 1, 3]);
}

#[test]
fn a_function_observer_calls_its_function_once_per_event() {
    let mut seen: Vec<(usize, usize)> = Vec::new();
    {
        let mut observer = FnObserver::new(|event: (usize, usize)| seen.push(event));
        observer.notify((1, 2));
        observer.notify((2, 2));
    }
    assert_eq!(seen, vec![(1, 2), (2, 2)]);
}
