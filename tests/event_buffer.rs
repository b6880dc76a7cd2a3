use soulmemory_rs::events::{EventBuffer, EventFlag, Webserver};

#[test]
fn repeated_state_records_once() {
    let mut b = EventBuffer::new();
    assert!(b.push(5, true));
    assert!(!b.push(5, true));
    let drained = b.drain();
    assert_eq!(drained.len(), 1);
    assert_eq!((drained[0].flag, drained[0].state), (5, true));
}

#[test]
fn toggled_state_records_twice() {
    let mut b = EventBuffer::new();
    b.push(5, true);
    b.push(5, false);
    let drained = b.drain();
    assert_eq!(drained.len(), 2);
    assert_eq!((drained[1].flag, drained[1].state), (5, false));
}

#[test]
fn first_push_of_false_is_recorded() {
    let mut b = EventBuffer::new();
    assert!(b.push_at(9, false, 100));
    assert_eq!(b.drain(), vec![EventFlag::new(100, 9, false)]);
    assert_eq!(b.last_state(9), Some(false));
    assert_eq!(b.last_state(10), None);
}

#[test]
fn drain_empties_and_keeps_states() {
    let mut b = EventBuffer::new();
    b.push_at(1, true, 10);
    b.push_at(2, true, 11);
    assert_eq!(b.pending_len(), 2);
    assert_eq!(b.drain(), vec![EventFlag::new(10, 1, true), EventFlag::new(11, 2, true)]);
    assert_eq!(b.pending_len(), 0);
    assert!(b.drain().is_empty());
    assert!(!b.push_at(1, true, 12));
    assert!(b.push_at(1, false, 13));
}

#[test]
fn interleaved_producers_and_drains_lose_and_duplicate_nothing() {
    // Producers p = 0..4 each toggle their own flag 50 times; their pushes
    // are interleaved round-robin and a drain happens every 7 operations.
    let mut b = EventBuffer::new();
    let mut drained: Vec<EventFlag> = Vec::new();
    let mut expected_edges = 0usize;
    let mut last: [Option<bool>; 4] = [None; 4];
    let mut op = 0usize;
    for round in 0..50u32 {
        for p in 0..4u32 {
            // every third round repeats the previous state instead of toggling
            let state = if round % 3 == 2 { last[p as usize].unwrap_or(false) } else { round % 2 == 0 };
            if last[p as usize] != Some(state) {
                expected_edges += 1;
                last[p as usize] = Some(state);
            }
            b.push_at(100 + p, state, (round * 4 + p) as i64);
            op += 1;
            if op % 7 == 0 {
                drained.extend(b.drain());
            }
        }
    }
    drained.extend(b.drain());
    assert_eq!(drained.len(), expected_edges);
    let mut times: Vec<i64> = drained.iter().map(|e| e.time).collect();
    let sorted = { let mut t = times.clone(); t.sort(); t };
    assert_eq!(times, sorted);
    times.dedup();
    assert_eq!(times.len(), expected_edges);
}

#[test]
fn webserver_keeps_only_changes() {
    let mut w = Webserver::new();
    assert!(w.add_flag(EventFlag::new(1, 7, true)));
    assert!(!w.add_flag(EventFlag::new(2, 7, true)));
    assert!(w.add_flag(EventFlag::new(3, 7, false)));
    assert!(w.add_flag(EventFlag::new(4, 8, true)));
    assert_eq!(
        w.take_event_flags(),
        vec![EventFlag::new(1, 7, true), EventFlag::new(3, 7, false), EventFlag::new(4, 8, true)]
    );
    assert!(w.take_event_flags().is_empty());
    assert!(!w.add_flag(EventFlag::new(5, 8, true)));
}
