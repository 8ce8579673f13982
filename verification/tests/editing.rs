use dondon::editor::{gestures_to_handle, remove_positions, Editor, Gesture, PointerEvents};
use dondon::schedule::{total_order_key, Schedule};

#[derive(Clone, Copy, Debug, PartialEq)]
struct Note {
    start: f32,
    length: f32,
    key: f32,
}

fn note(start: f32, key: f32) -> Note {
    Note { start, length: 1.0, key }
}

fn hovered(x: f32, key: f32) -> impl Fn(&Note) -> bool {
    move |n| x >= n.start && x < n.start + n.length && key.floor() == n.key
}

fn key(x: f32) -> i32 {
    total_order_key(x.to_bits())
}

#[test]
fn order_keys_follow_total_order() {
    let values = [f32::NEG_INFINITY, -3.5, -1.0, -0.0, 0.0, 1e-30, 1.0, 2.5, f32::INFINITY];
    for a in values {
        for b in values {
            assert_eq!(key(a).cmp(&key(b)), a.total_cmp(&b));
        }
    }
    assert_eq!(key(0.0), 0);
    assert_eq!(key(-0.0), -1);
}

#[test]
fn schedule_keeps_notes_sorted_and_stable() {
    let mut s: Schedule<&str> = Schedule::new();
    assert_eq!(s.insert(key(2.0), "b"), 0);
    assert_eq!(s.insert(key(1.0), "a"), 0);
    assert_eq!(s.insert(key(2.0), "c"), 2);
    assert_eq!(s.insert(key(0.5), "z"), 0);
    assert_eq!(s.len(), 4);
    let order: Vec<&str> = (0..s.len()).map(|i| *s.note(i)).collect();
    assert_eq!(order, vec!["z", "a", "b", "c"]);
    for i in 1..s.len() {
        assert!(s.key(i - 1) <= s.key(i));
    }
    assert_eq!(s.next_index(), 0);
}

#[test]
fn playback_hands_out_due_notes_in_order() {
    let mut s: Schedule<f32> = Schedule::new();
    for start in [0.0f32, 1.0, 2.0] {
        s.insert(key(start), start);
    }
    let time = 1.2f32;
    let due = |start: &f32| time >= *start - 0.1;
    assert_eq!(s.poll(due), Some(0));
    assert_eq!(s.poll(due), Some(1));
    assert_eq!(s.poll(due), None);
    assert_eq!(s.next_index(), 2);
    let later = |start: &f32| 5.0 >= *start - 0.1;
    assert_eq!(s.poll(later), Some(2));
    assert_eq!(s.poll(later), None);
    assert_eq!(s.next_index(), 3);
}

#[test]
fn insertion_does_not_move_playback_position() {
    let mut s: Schedule<u8> = Schedule::new();
    s.insert(key(1.0), 1);
    s.insert(key(2.0), 2);
    assert_eq!(s.poll(|_| true), Some(0));
    assert_eq!(s.insert(key(0.0), 0), 0);
    assert_eq!(s.next_index(), 1);
    assert_eq!(*s.note(1), 1);
}

#[test]
fn topmost_hovered_note_is_found() {
    let mut e: Editor<Note> = Editor::new();
    e.add(note(0.0, 3.0));
    e.add(note(0.5, 3.0));
    e.add(note(0.5, 4.0));
    assert_eq!(e.last_matching(hovered(0.75, 3.2)), Some(1));
    assert_eq!(e.last_matching(hovered(0.25, 3.9)), Some(0));
    assert_eq!(e.last_matching(hovered(3.0, 3.0)), None);
    assert_eq!(e.matching_indices(hovered(0.75, 3.0)), vec![1, 0]);
    assert_eq!(e.matching_indices(hovered(0.75, 9.0)), Vec::<usize>::new());
}

#[test]
fn removal_keeps_the_other_notes_in_order() {
    let mut e: Editor<Note> = Editor::new();
    for (s, k) in [(0.0, 1.0), (0.2, 1.0), (5.0, 1.0), (0.4, 2.0), (0.1, 1.0)] {
        e.add(note(s, k));
    }
    let removed = e.remove_matching(hovered(0.5, 1.0));
    assert_eq!(removed, vec![4, 1, 0]);
    assert_eq!(e.notes(), &vec![note(5.0, 1.0), note(0.4, 2.0)]);
}

#[test]
fn positions_are_removed_from_the_back() {
    let mut v = vec!['a', 'b', 'c', 'd', 'e'];
    remove_positions(&mut v, &vec![4, 2, 1]);
    assert_eq!(v, vec!['a', 'd']);
    let mut w = vec![1, 2];
    remove_positions(&mut w, &vec![]);
    assert_eq!(w, vec![1, 2]);
}

#[test]
fn dragging_grabs_the_hovered_note() {
    let mut e: Editor<Note> = Editor::new();
    e.add(note(1.0, 10.0));
    let i = e.start_drag(hovered(1.5, 10.0), || note(0.0, 0.0));
    assert_eq!(i, 0);
    assert_eq!(e.dragged(), Some(0));
    assert_eq!(e.notes().len(), 1);
    e.drag_to(|n| Note { start: 2.3, key: 11.4, ..*n });
    assert_eq!(e.notes()[0], Note { start: 2.3, length: 1.0, key: 11.4 });
    let was = e.stop_drag(|n| Note { start: (n.start / 0.25).round() * 0.25, key: n.key.round(), ..*n });
    assert_eq!(was, Some(0));
    assert_eq!(e.dragged(), None);
    assert_eq!(e.notes()[0], Note { start: 2.25, length: 1.0, key: 11.0 });
}

#[test]
fn dragging_empty_space_creates_a_note() {
    let mut e: Editor<Note> = Editor::new();
    e.add(note(1.0, 10.0));
    let i = e.start_drag(hovered(7.0, 10.0), || note(6.5, 9.5));
    assert_eq!(i, 1);
    assert_eq!(e.dragged(), Some(1));
    assert_eq!(e.notes()[1], note(6.5, 9.5));
    assert!(e.is_dragged_valid());
}

#[test]
fn removing_notes_can_leave_the_drag_dangling() {
    let mut e: Editor<Note> = Editor::new();
    e.add(note(1.0, 10.0));
    e.start_drag(hovered(1.5, 10.0), || note(0.0, 0.0));
    e.remove_matching(hovered(1.5, 10.0));
    assert_eq!(e.dragged(), Some(0));
    assert!(!e.is_dragged_valid());
}

#[test]
fn stopping_without_a_drag_changes_nothing() {
    let mut e: Editor<Note> = Editor::new();
    e.add(note(1.1, 10.0));
    e.drag_to(|n| Note { start: 99.0, ..*n });
    assert_eq!(e.stop_drag(|n| Note { start: 0.0, ..*n }), None);
    assert_eq!(e.notes(), &vec![note(1.1, 10.0)]);
}

fn events() -> PointerEvents {
    PointerEvents {
        clicked_primary: false,
        clicked_secondary: false,
        drag_started_primary: false,
        drag_started_secondary: false,
        dragged_primary: false,
        dragged_secondary: false,
        drag_stopped_primary: false,
    }
}

#[test]
fn first_handler_that_applies_ends_the_frame() {
    assert_eq!(gestures_to_handle(events()), vec![]);
    let ev = PointerEvents { clicked_primary: true, clicked_secondary: true, ..events() };
    assert_eq!(gestures_to_handle(ev), vec![Gesture::ClickPrimary]);
    let ev = PointerEvents { drag_started_primary: true, dragged_primary: true, ..events() };
    assert_eq!(gestures_to_handle(ev), vec![Gesture::DragStartPrimary]);
    let ev = PointerEvents { drag_stopped_primary: true, ..events() };
    assert_eq!(gestures_to_handle(ev), vec![Gesture::DragStopPrimary]);
}

#[test]
fn moving_a_note_does_not_end_the_frame() {
    let ev = PointerEvents { dragged_primary: true, dragged_secondary: true, drag_stopped_primary: true, ..events() };
    assert_eq!(gestures_to_handle(ev), vec![Gesture::DragPrimary, Gesture::DragSecondary]);
    let ev = PointerEvents { dragged_primary: true, drag_stopped_primary: true, ..events() };
    assert_eq!(gestures_to_handle(ev), vec![Gesture::DragPrimary, Gesture::DragStopPrimary]);
    let ev = PointerEvents { dragged_primary: true, ..events() };
    assert_eq!(gestures_to_handle(ev), vec![Gesture::DragPrimary]);
}
