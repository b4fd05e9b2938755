use std::time::{Duration, Instant};
use termwindow::prevcursor::{
    CursorShape, CursorVisibility, PrevCursorPos, StableCursorPosition,
};

fn at(x: usize, y: isize) -> StableCursorPosition {
    StableCursorPosition {
        x,
        y,
        shape: CursorShape::Default,
        visibility: CursorVisibility::Visible,
    }
}

#[test]
fn new_cursor_is_home() {
    let before = Instant::now();
    let cursor = PrevCursorPos::new();
    let after = Instant::now();
    assert_eq!(*cursor.position(), at(0, 0));
    assert_eq!(*cursor.prev_position(), at(0, 0));
    assert_eq!(StableCursorPosition::default(), at(0, 0));
    assert!(before <= cursor.last_cursor_movement());
    assert!(cursor.last_cursor_movement() <= after);
}

#[test]
fn update_to_the_same_position_changes_nothing() {
    let mut cursor = PrevCursorPos::new();
    let start = cursor.last_cursor_movement();
    cursor.update_at(&at(0, 0), start + Duration::from_secs(9));
    assert_eq!(cursor.last_cursor_movement(), start);
    cursor.update(&at(0, 0));
    assert_eq!(cursor.last_cursor_movement(), start);
    assert_eq!(*cursor.position(), at(0, 0));
    assert_eq!(*cursor.prev_position(), at(0, 0));
}

#[test]
fn move_from_rest_records_where_it_rested() {
    let mut cursor = PrevCursorPos::new();
    let start = cursor.last_cursor_movement();
    let first = start + Duration::from_millis(51);
    cursor.update_at(&at(3, 1), first);
    assert_eq!(*cursor.position(), at(3, 1));
    assert_eq!(*cursor.prev_position(), at(0, 0));
    assert_eq!(cursor.last_cursor_movement(), first);

    let second = first + Duration::from_millis(51);
    cursor.update_at(&at(4, 1), second);
    assert_eq!(*cursor.position(), at(4, 1));
    assert_eq!(*cursor.prev_position(), at(3, 1));
    assert_eq!(cursor.last_cursor_movement(), second);
}

#[test]
fn fifty_milliseconds_are_no_rest() {
    let mut cursor = PrevCursorPos::new();
    let start = cursor.last_cursor_movement();
    let first = start + Duration::from_millis(500);
    cursor.update_at(&at(3, 1), first);
    // 50.9 ms count as 50
    cursor.update_at(&at(4, 1), first + Duration::from_micros(50_900));
    assert_eq!(*cursor.position(), at(4, 1));
    assert_eq!(*cursor.prev_position(), at(0, 0));
}

#[test]
fn rapid_moves_keep_where_they_started() {
    let mut cursor = PrevCursorPos::new();
    let mut now = cursor.last_cursor_movement() + Duration::from_secs(1);
    cursor.update_at(&at(7, 7), now);
    now += Duration::from_secs(1);
    cursor.update_at(&at(8, 7), now);
    for x in 9..40usize {
        now += Duration::from_millis(50);
        cursor.update_at(&at(x, 7), now);
        assert_eq!(*cursor.position(), at(x, 7));
        assert_eq!(*cursor.prev_position(), at(7, 7));
        assert_eq!(cursor.last_cursor_movement(), now);
    }
}

#[test]
fn bump_moves_nothing_but_the_time() {
    let mut cursor = PrevCursorPos::new();
    let start = cursor.last_cursor_movement();
    let rest = start + Duration::from_secs(1);
    cursor.update_at(&at(1, 1), rest);
    let bumped = rest + Duration::from_secs(1);
    cursor.bump_at(bumped);
    assert_eq!(*cursor.position(), at(1, 1));
    assert_eq!(*cursor.prev_position(), at(0, 0));
    assert_eq!(cursor.last_cursor_movement(), bumped);
    // Not at rest, although the position has been the same for a second
    cursor.update_at(&at(2, 1), bumped + Duration::from_millis(10));
    assert_eq!(*cursor.prev_position(), at(0, 0));
}

#[test]
fn bump_reads_the_clock() {
    let mut cursor = PrevCursorPos::new();
    let before = Instant::now();
    cursor.bump();
    assert!(before <= cursor.last_cursor_movement());
    assert!(cursor.last_cursor_movement() <= Instant::now());
}

#[test]
fn update_reads_the_clock() {
    let mut cursor = PrevCursorPos::new();
    let before = Instant::now();
    cursor.update(&at(2, 3));
    assert_eq!(*cursor.position(), at(2, 3));
    assert!(before <= cursor.last_cursor_movement());
    assert!(cursor.last_cursor_movement() <= Instant::now());
}

#[test]
fn change_of_shape_or_visibility_is_a_move() {
    let mut cursor = PrevCursorPos::new();
    let now = cursor.last_cursor_movement() + Duration::from_secs(1);
    let bar = StableCursorPosition {
        shape: CursorShape::SteadyBar,
        ..at(0, 0)
    };
    cursor.update_at(&bar, now);
    assert_eq!(*cursor.position(), bar);
    assert_eq!(*cursor.prev_position(), at(0, 0));
    let hidden = StableCursorPosition {
        visibility: CursorVisibility::Hidden,
        ..bar
    };
    cursor.update_at(&hidden, now + Duration::from_secs(1));
    assert_eq!(*cursor.position(), hidden);
    assert_eq!(*cursor.prev_position(), bar);
}

#[test]
fn stillness_is_given() {
    let mut cursor = PrevCursorPos::new();
    let now = Instant::now();
    cursor.update_after_still(&at(1, 0), now, 50);
    assert_eq!(*cursor.prev_position(), at(0, 0));
    cursor.update_after_still(&at(2, 0), now, 51);
    assert_eq!(*cursor.prev_position(), at(1, 0));
    cursor.update_after_still(&at(3, 0), now, u128::MAX);
    assert_eq!(*cursor.prev_position(), at(2, 0));
    cursor.update_after_still(&at(3, 0), now, u128::MAX);
    assert_eq!(*cursor.prev_position(), at(2, 0));
}

#[test]
fn clone_tracks_the_same_cursor() {
    let mut cursor = PrevCursorPos::new();
    let now = cursor.last_cursor_movement() + Duration::from_secs(1);
    cursor.update_at(&at(5, 6), now);
    let copy = cursor.clone();
    assert_eq!(*copy.position(), at(5, 6));
    assert_eq!(*copy.prev_position(), at(0, 0));
    assert_eq!(copy.last_cursor_movement(), now);
}
