use curtain_relay::sched::{Scheduler, SubmitError, Submitted, DWELL_MS};

fn ids_of(s: &Scheduler, now_ms: u64) -> Vec<u64> {
    s.snapshot(now_ms).items.iter().map(|m| m.id).collect()
}

fn texts_of(s: &Scheduler, now_ms: u64) -> Vec<String> {
    s.snapshot(now_ms).items.iter().map(|m| m.text.clone()).collect()
}

#[test]
fn submit_ids_strictly_increase() {
    let mut s = Scheduler::new();
    let mut last: u64 = 0;
    for i in 0..10u64 {
        let r = s.submit(&format!("msg {}", i), None, 0).unwrap();
        match r {
            Submitted::Queued { id } => {
                assert!(id > last);
                last = id;
            },
            Submitted::Switched { .. } => panic!("nothing is current yet"),
        }
    }
}

#[test]
fn rejected_submit_consumes_no_id() {
    let mut s = Scheduler::new();
    assert!(matches!(s.submit("   ", None, 0), Err(SubmitError::InvalidInput)));
    match s.submit("ok", None, 0).unwrap() {
        Submitted::Queued { id } => assert_eq!(id, 1),
        _ => panic!("expected queued"),
    }
}

#[test]
fn submit_trims_text() {
    let mut s = Scheduler::new();
    s.submit("  hello  ", None, 0).unwrap();
    assert_eq!(texts_of(&s, 0), vec!["hello".to_string()]);
}

#[test]
fn submit_rejects_empty_and_overlong() {
    let mut s = Scheduler::new();
    assert!(s.submit("", None, 0).is_err());
    assert!(s.submit(" \t\n ", None, 0).is_err());
    let max = "x".repeat(128);
    assert!(s.submit(&max, None, 0).is_ok());
    let too_long = "x".repeat(129);
    assert!(s.submit(&too_long, None, 0).is_err());
}

#[test]
fn tick_fills_empty_current_from_queue_head() {
    let mut s = Scheduler::new();
    s.submit("first", None, 0).unwrap();
    s.submit("second", None, 0).unwrap();
    let apply = s.tick(5).expect("fill must apply exactly once");
    assert_eq!(apply.text, "first");
    let snap = s.snapshot(5);
    assert_eq!(snap.current.as_ref().unwrap().text, "first");
    assert_eq!(texts_of(&s, 5), vec!["second".to_string()]);
    // the slot is freshly filled: the next tick applies nothing
    assert!(s.tick(6).is_none());
}

#[test]
fn tick_does_nothing_when_idle() {
    let mut s = Scheduler::new();
    assert!(s.tick(0).is_none());
    assert!(s.snapshot(0).current.is_none());
    assert_eq!(s.snapshot(0).elapsed_seconds, 0);
}

#[test]
fn tick_advances_after_dwell() {
    let mut s = Scheduler::new();
    s.submit("first", None, 0).unwrap();
    s.submit("second", None, 0).unwrap();
    s.tick(0).unwrap();
    assert!(s.tick(DWELL_MS - 1).is_none());
    let apply = s.tick(DWELL_MS).expect("advance must apply");
    assert_eq!(apply.text, "second");
    let snap = s.snapshot(DWELL_MS);
    assert_eq!(snap.current.as_ref().unwrap().text, "second");
    assert_eq!(snap.elapsed_seconds, 0);
    assert!(snap.items.is_empty());
}

#[test]
fn current_keeps_showing_when_queue_is_empty() {
    let mut s = Scheduler::new();
    s.submit("only", None, 0).unwrap();
    s.tick(0).unwrap();
    for n in 1..6u64 {
        assert!(s.tick(n * DWELL_MS).is_none());
        let snap = s.snapshot(n * DWELL_MS);
        assert_eq!(snap.current.as_ref().unwrap().text, "only");
    }
}

#[test]
fn submit_switches_after_dwell_and_queues_before() {
    let mut s = Scheduler::new();
    s.submit("shown", None, 0).unwrap();
    s.tick(0).unwrap();
    // before the dwell time: appended at the tail, prior order kept
    match s.submit("waits", None, 10_000).unwrap() {
        Submitted::Queued { id } => assert_eq!(id, 2),
        _ => panic!("expected queued"),
    }
    assert_eq!(texts_of(&s, 10_000), vec!["waits".to_string()]);
    // after the dwell time: switched in at once, queue untouched
    match s.submit("jumps", Some("#ff00aa".to_string()), 70_000).unwrap() {
        Submitted::Switched { id, apply } => {
            assert_eq!(id, 3);
            assert_eq!(apply.text, "jumps");
            assert_eq!(apply.color.as_deref(), Some("#ff00aa"));
        },
        _ => panic!("expected switched"),
    }
    let snap = s.snapshot(70_000);
    let cur = snap.current.as_ref().unwrap();
    assert_eq!(cur.text, "jumps");
    assert_eq!(cur.color.as_deref(), Some("#ff00aa"));
    assert_eq!(snap.elapsed_seconds, 0);
    assert_eq!(texts_of(&s, 70_000), vec!["waits".to_string()]);
}

#[test]
fn remove_current_clears_slot_and_keeps_queue() {
    let mut s = Scheduler::new();
    s.submit("shown", None, 0).unwrap();
    s.tick(0).unwrap();
    s.submit("a", None, 0).unwrap();
    s.submit("b", None, 0).unwrap();
    s.remove(1);
    let snap = s.snapshot(0);
    assert!(snap.current.is_none());
    assert_eq!(texts_of(&s, 0), vec!["a".to_string(), "b".to_string()]);
    // the next tick fills from the untouched queue
    let apply = s.tick(1).unwrap();
    assert_eq!(apply.text, "a");
}

#[test]
fn remove_queued_keeps_relative_order() {
    let mut s = Scheduler::new();
    s.submit("a", None, 0).unwrap();
    let b_id = match s.submit("b", None, 0).unwrap() {
        Submitted::Queued { id } => id,
        _ => panic!("expected queued"),
    };
    s.submit("c", None, 0).unwrap();
    s.remove(b_id);
    assert_eq!(
        texts_of(&s, 0),
        vec!["a".to_string(), "c".to_string()]
    );
}

#[test]
fn remove_unknown_id_changes_nothing() {
    let mut s = Scheduler::new();
    s.submit("shown", None, 0).unwrap();
    s.tick(0).unwrap();
    s.submit("a", None, 0).unwrap();
    s.remove(999);
    let snap = s.snapshot(0);
    assert_eq!(snap.current.as_ref().unwrap().text, "shown");
    assert_eq!(texts_of(&s, 0), vec!["a".to_string()]);
}

#[test]
fn remove_is_idempotent() {
    let mut s = Scheduler::new();
    let id = match s.submit("a", None, 0).unwrap() {
        Submitted::Queued { id } => id,
        _ => panic!("expected queued"),
    };
    s.remove(id);
    s.remove(id);
    assert!(ids_of(&s, 0).is_empty());
}

#[test]
fn snapshot_round_trip_after_submit_and_tick() {
    let mut s = Scheduler::new();
    s.submit("Hello", Some("#ff00aa".to_string()), 0).unwrap();
    s.tick(0).unwrap();
    let snap = s.snapshot(500);
    let cur = snap.current.as_ref().unwrap();
    assert_eq!(cur.text, "Hello");
    assert_eq!(cur.color.as_deref(), Some("#ff00aa"));
    assert!(snap.elapsed_seconds <= 1);
    assert!(snap.items.is_empty());
}

#[test]
fn snapshot_reports_elapsed_seconds() {
    let mut s = Scheduler::new();
    s.submit("Hello", None, 0).unwrap();
    s.tick(1_000).unwrap();
    assert_eq!(s.snapshot(31_000).elapsed_seconds, 30);
    // a clock reading before the start counts as zero
    assert_eq!(s.snapshot(500).elapsed_seconds, 0);
}
