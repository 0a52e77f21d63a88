use container_keeper::debounce::RestartDebouncer;

#[test]
fn two_stops_five_seconds_apart_accumulate() {
    let mut d = RestartDebouncer::new();
    let first = d.note_stop("c1", 1_000);
    let second = d.note_stop("c1", 1_005);
    assert_eq!(first, 1);
    assert_eq!(second, 2);
    let rec = d.get("c1").unwrap();
    assert_eq!(rec.restart_count, 2);
    assert_eq!(rec.last_restart, 1_005);
}

#[test]
fn stops_spaced_beyond_window_always_read_one() {
    let mut d = RestartDebouncer::new();
    assert_eq!(d.note_stop("c1", 0), 1);
    assert_eq!(d.note_stop("c1", 601), 1);
    assert_eq!(d.note_stop("c1", 1_300), 1);
    assert_eq!(d.note_stop("c1", 2_000), 1);
}

#[test]
fn stop_at_exactly_the_window_edge_still_accumulates() {
    let mut d = RestartDebouncer::new();
    assert_eq!(d.note_stop("c1", 100), 1);
    // 600 seconds later is not yet "more than 600 seconds"
    assert_eq!(d.note_stop("c1", 700), 2);
    // one more second crosses the window
    assert_eq!(d.note_stop("c1", 1_301), 1);
}

#[test]
fn five_stops_in_one_window_count_to_five() {
    let mut d = RestartDebouncer::new();
    let times = [10u64, 20, 30, 40, 50];
    let mut last = 0;
    for t in times {
        last = d.note_stop("c1", t);
    }
    assert_eq!(last, 5);
}

#[test]
fn records_are_kept_per_container() {
    let mut d = RestartDebouncer::new();
    assert_eq!(d.note_stop("a", 10), 1);
    assert_eq!(d.note_stop("b", 11), 1);
    assert_eq!(d.note_stop("a", 12), 2);
    assert_eq!(d.note_stop("b", 13), 2);
    assert!(d.get("c").is_none());
}

#[test]
fn clock_going_backwards_does_not_reset() {
    let mut d = RestartDebouncer::new();
    assert_eq!(d.note_stop("c1", 10_000), 1);
    assert_eq!(d.note_stop("c1", 9_000), 2);
}

#[test]
fn clear_forgets_the_record() {
    let mut d = RestartDebouncer::new();
    d.note_stop("c1", 100);
    d.note_stop("c1", 101);
    d.clear("c1");
    assert!(d.get("c1").is_none());
    assert_eq!(d.note_stop("c1", 102), 1);
}
