use notext::registry::{expiry_delay, Registry};

fn submit(r: &mut Registry, app: &str, replaces_id: u32, summary: &str, body: &str, t: i32) -> (u32, Option<u64>) {
    let out = r.notify(app.to_string(), replaces_id, summary.to_string(), body.to_string(), t);
    (out.id, out.expiry_ms)
}

#[test]
fn scenario_a_submit_then_expire() {
    let mut r = Registry::new();
    let (id, expiry) = submit(&mut r, "App1", 0, "Hi", "", -1);
    assert_eq!(id, 1);
    assert_eq!(expiry, Some(5000));
    assert_eq!(r.len(), 1);
    assert_eq!(r.cursor(), Some(0));
    // The expiry timer fires after 5000 ms with no further mutation:
    // the entry is still present, so exactly one close happens.
    let removed = r.close_notification(1);
    assert!(removed);
    assert_eq!(r.len(), 0);
    assert_eq!(r.cursor(), None);
    // A second (stale) fire is a silent no-op.
    assert!(!r.close_notification(1));
}

#[test]
fn scenario_b_two_submits_then_close_current() {
    let mut r = Registry::new();
    let (id1, _) = submit(&mut r, "a", 0, "one", "", 0);
    let (id2, _) = submit(&mut r, "b", 0, "two", "", 0);
    assert_eq!(id1, 1);
    assert_eq!(id2, 2);
    assert_eq!(r.cursor(), Some(1));
    let closed = r.close_current();
    assert_eq!(closed, Some(2));
    assert_eq!(r.len(), 1);
    assert_eq!(r.cursor(), Some(0));
    assert_eq!(r.get(0).0, 1);
}

#[test]
fn scenario_c_next_and_prev_cycle_on_two() {
    let mut r = Registry::new();
    submit(&mut r, "a", 0, "one", "", 0);
    submit(&mut r, "b", 0, "two", "", 0);
    assert_eq!(r.cursor(), Some(1));
    assert!(r.next());
    assert_eq!(r.cursor(), Some(0));
    assert!(r.prev());
    assert_eq!(r.cursor(), Some(1));
}

#[test]
fn scenario_d_timeout_zero_never_schedules() {
    let mut r = Registry::new();
    let (id, expiry) = submit(&mut r, "App", 0, "stay", "", 0);
    assert_eq!(expiry, None);
    assert_eq!(r.len(), 1);
    // The entry persists until explicitly closed.
    assert!(r.close_notification(id));
    assert_eq!(r.len(), 0);
}

#[test]
fn expiry_delay_modes() {
    assert_eq!(expiry_delay(-1), Some(5000));
    assert_eq!(expiry_delay(0), None);
    assert_eq!(expiry_delay(250), Some(250));
    assert_eq!(expiry_delay(-7), None);
}

#[test]
fn replace_keeps_position_and_cursor() {
    let mut r = Registry::new();
    submit(&mut r, "a", 0, "one", "", 0);
    submit(&mut r, "b", 0, "two", "", 0);
    submit(&mut r, "c", 0, "three", "", 0);
    assert!(r.prev());
    assert_eq!(r.cursor(), Some(1));
    let (id, expiry) = submit(&mut r, "b2", 2, "two again", "", -1);
    assert_eq!(id, 2);
    // Replacing in place never schedules an expiry timer.
    assert_eq!(expiry, None);
    assert_eq!(r.len(), 3);
    assert_eq!(r.cursor(), Some(1));
    let entry = r.get(1);
    assert_eq!(entry.0, 2);
    assert_eq!(entry.1.app_name, "b2");
    assert_eq!(entry.1.summary, "two again");
}

#[test]
fn replace_of_absent_id_appends_under_it() {
    let mut r = Registry::new();
    let (id, expiry) = submit(&mut r, "a", 7, "direct", "", 3000);
    assert_eq!(id, 7);
    assert_eq!(expiry, Some(3000));
    assert_eq!(r.len(), 1);
    assert_eq!(r.get(0).0, 7);
    // The auto-assignment counter was not consumed.
    let (id2, _) = submit(&mut r, "b", 0, "auto", "", 0);
    assert_eq!(id2, 1);
}

#[test]
fn submitted_ids_stay_unique() {
    let mut r = Registry::new();
    for _ in 0..10 {
        submit(&mut r, "a", 0, "s", "", 0);
    }
    submit(&mut r, "b", 4, "replaced", "", 0);
    for i in 0..r.len() {
        for j in 0..r.len() {
            if i != j {
                assert_ne!(r.get(i).0, r.get(j).0);
            }
        }
    }
}

#[test]
fn cursor_clamps_after_every_removal() {
    let mut r = Registry::new();
    for _ in 0..4 {
        submit(&mut r, "a", 0, "s", "", 0);
    }
    assert_eq!(r.cursor(), Some(3));
    // Removing an entry before the cursor jumps to the new last index.
    assert!(r.close_notification(1));
    assert_eq!(r.len(), 3);
    assert_eq!(r.cursor(), Some(2));
    // Removing the last entry while selected clamps to the new last index.
    let closed = r.close_current();
    assert_eq!(closed, Some(4));
    assert_eq!(r.cursor(), Some(1));
    // Removing an entry after the cursor leaves it unmoved.
    assert!(r.prev());
    assert_eq!(r.cursor(), Some(0));
    assert!(r.close_notification(3));
    assert_eq!(r.cursor(), Some(0));
    // Emptying the registry clears the cursor.
    assert!(r.close_notification(2));
    assert_eq!(r.len(), 0);
    assert_eq!(r.cursor(), None);
}

#[test]
fn next_cycles_back_after_len_steps() {
    let mut r = Registry::new();
    for _ in 0..3 {
        submit(&mut r, "a", 0, "s", "", 0);
    }
    let start = r.cursor();
    for _ in 0..3 {
        assert!(r.next());
    }
    assert_eq!(r.cursor(), start);
    for _ in 0..3 {
        assert!(r.prev());
    }
    assert_eq!(r.cursor(), start);
}

#[test]
fn prev_wraps_from_front() {
    let mut r = Registry::new();
    submit(&mut r, "a", 0, "one", "", 0);
    submit(&mut r, "b", 0, "two", "", 0);
    assert!(r.next());
    assert_eq!(r.cursor(), Some(0));
    assert!(r.prev());
    assert_eq!(r.cursor(), Some(1));
}

#[test]
fn navigation_is_a_no_op_when_empty() {
    let mut r = Registry::new();
    assert!(!r.next());
    assert!(!r.prev());
    assert_eq!(r.close_current(), None);
    assert_eq!(r.invoke(), None);
    assert_eq!(r.cursor(), None);
}

#[test]
fn invoke_names_the_selected_entry() {
    let mut r = Registry::new();
    submit(&mut r, "a", 0, "one", "", 0);
    submit(&mut r, "b", 0, "two", "", 0);
    assert_eq!(r.invoke(), Some(2));
    assert!(r.next());
    assert_eq!(r.invoke(), Some(1));
}

#[test]
fn close_of_absent_id_changes_nothing() {
    let mut r = Registry::new();
    submit(&mut r, "a", 0, "one", "", 0);
    assert!(!r.close_notification(99));
    assert_eq!(r.len(), 1);
    assert_eq!(r.cursor(), Some(0));
}

#[test]
fn notify_strips_markup_from_the_body() {
    let mut r = Registry::new();
    submit(&mut r, "a", 0, "s", "be <b>bold</b> now", 0);
    assert_eq!(r.get(0).1.body, "be bold now");
}

#[test]
fn cursor_follows_newest_only_from_the_end() {
    let mut r = Registry::new();
    submit(&mut r, "a", 0, "one", "", 0);
    submit(&mut r, "b", 0, "two", "", 0);
    assert!(r.next());
    assert_eq!(r.cursor(), Some(0));
    // The viewer moved off the newest entry: an append leaves them in place.
    submit(&mut r, "c", 0, "three", "", 0);
    assert_eq!(r.cursor(), Some(0));
}
