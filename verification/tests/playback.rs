use oxd2::command::Key;
use oxd2::playlist::PlaylistCursor;
use oxd2::session::{Action, Session};

#[test]
fn pause_toggles_and_toggles_back() {
    let mut s = Session::new();
    assert!(!s.pause);
    assert_eq!(s.apply(Key::Pause, 5), Action::Continue);
    assert!(s.pause);
    // the second toggle arrives through the paused drain
    assert_eq!(s.apply_paused(Key::Pause), Action::Continue);
    assert!(!s.pause);
    // no side effects on the rest of the state
    assert!(!s.load_next);
    assert_eq!(s, Session::new());
}

#[test]
fn backward_at_zero_stays_at_zero() {
    let mut s = Session::new();
    assert_eq!(s.apply(Key::Backward, 0), Action::Seek(0));
}

#[test]
fn seeks_move_one_position_and_unpause() {
    let mut s = Session::new();
    s.apply(Key::Pause, 0);
    assert!(s.pause);
    assert_eq!(s.apply(Key::Forward, 3), Action::Seek(4));
    assert!(!s.pause);
    s.apply(Key::Pause, 0);
    assert_eq!(s.apply(Key::Backward, 3), Action::Seek(2));
    assert!(!s.pause);
}

#[test]
fn next_latches_advance_and_unpauses() {
    let mut s = Session::new();
    s.apply(Key::Pause, 0);
    assert_eq!(s.apply(Key::Next, 0), Action::Continue);
    assert!(s.load_next);
    assert!(!s.pause);
}

#[test]
fn previous_only_unpauses() {
    let mut s = Session::new();
    s.apply(Key::Pause, 0);
    assert_eq!(s.apply(Key::Previous, 0), Action::Continue);
    assert!(!s.pause);
    assert!(!s.load_next);
}

#[test]
fn exit_terminates_running_or_paused() {
    let mut s = Session::new();
    assert_eq!(s.apply(Key::Exit, 0), Action::Terminate);
    let mut p = Session::new();
    p.apply(Key::Pause, 0);
    assert_eq!(p.apply_paused(Key::Exit), Action::Terminate);
}

#[test]
fn pause_then_exit_still_terminates() {
    // both commands enqueued before the render thread drains them
    let queue = [Key::Pause, Key::Exit];
    let mut s = Session::new();
    // first callback: not paused, one non-blocking receive
    assert_eq!(s.apply(queue[0], 0), Action::Continue);
    assert!(s.pause);
    // second callback: paused, so the drain blocks and gets the next command
    assert_eq!(s.apply_paused(queue[1]), Action::Terminate);
}

#[test]
fn ignored_commands_while_paused() {
    let mut s = Session::new();
    s.apply(Key::Pause, 0);
    assert_eq!(s.apply_paused(Key::Forward), Action::Continue);
    assert_eq!(s.apply_paused(Key::Backward), Action::Continue);
    assert_eq!(s.apply_paused(Key::Next), Action::Continue);
    assert_eq!(s.apply_paused(Key::Previous), Action::Continue);
    assert!(s.pause);
    assert!(!s.load_next);
}

#[test]
fn status_line_on_row_or_pause_change() {
    let mut s = Session::new();
    // the first frame always reports
    assert!(s.observe(0));
    assert!(!s.observe(0));
    assert!(s.observe(1));
    assert!(!s.observe(1));
    // a pause change reports even on the same row
    s.apply(Key::Pause, 0);
    assert!(s.observe(1));
    assert!(!s.observe(1));
}

#[test]
fn loop_count_latches_advance() {
    let mut s = Session::new();
    s.note_loop(0);
    assert!(!s.load_next);
    s.note_loop(1);
    assert!(s.load_next);
    s.begin_track();
    assert!(!s.load_next);
}

#[test]
fn failed_load_skips_to_next_entry() {
    // playlist ["a.mod", "corrupt.bin", "b.mod"]: the middle entry fails to
    // load and the session skips straight to the third
    let names = vec![
        "a.mod".to_string(),
        "corrupt.bin".to_string(),
        "b.mod".to_string(),
    ];
    let mut cursor = PlaylistCursor::new(names, false);
    let mut s = Session::new();

    let first = cursor.advance().unwrap();
    assert_eq!(first, "a.mod");
    s.begin_track();

    // the track completes a loop: the advance latch is set
    s.note_loop(1);
    assert!(s.load_next);

    let second = cursor.advance().unwrap();
    assert_eq!(second, "corrupt.bin");
    // loading fails; the latch stays set and the next entry is tried
    assert!(s.load_next);
    let third = cursor.advance().unwrap();
    assert_eq!(third, "b.mod");
    s.begin_track();
    assert!(!s.load_next);

    // playback proceeds; the playlist is only exhausted after the last track
    assert!(cursor.exhausted());
    assert_eq!(cursor.advance(), None);
}

#[test]
fn cursor_hands_out_entries_in_order() {
    let names = vec!["x".to_string(), "y".to_string()];
    let mut cursor = PlaylistCursor::new(names, false);
    assert_eq!(cursor.len(), 2);
    assert_eq!(cursor.position(), 0);
    assert!(!cursor.exhausted());
    assert_eq!(cursor.advance().unwrap(), "x");
    assert_eq!(cursor.position(), 1);
    assert_eq!(cursor.advance().unwrap(), "y");
    assert!(cursor.exhausted());
    assert_eq!(cursor.advance(), None);
    assert_eq!(cursor.position(), 2);
}

#[test]
fn shuffle_keeps_the_same_entries() {
    let names: Vec<String> = (0..16).map(|i| format!("track{i}.mod")).collect();
    let mut cursor = PlaylistCursor::new(names.clone(), true);
    let mut seen = Vec::new();
    while let Some(name) = cursor.advance() {
        seen.push(name);
    }
    seen.sort();
    let mut expected = names;
    expected.sort();
    assert_eq!(seen, expected);
}
