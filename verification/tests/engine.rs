use snake::snake::{Direction, Snake};

fn cells(s: &Snake) -> Vec<(i32, i32)> {
    s.body_cells()
}

#[test]
fn construct_advance_grow_scenario() {
    let mut s = Snake::new(5, 5);
    assert_eq!(cells(&s), vec![(7, 5), (6, 5)]);
    assert!(matches!(s.head_direction(), Direction::Right));
    assert_eq!(s.head_position(), (7, 5));

    let next = s.next_head(None, 20, 20);
    assert_eq!(next, (8, 5));
    s.move_forward(None, 20, 20);
    assert_eq!(s.head_position(), (8, 5));
    assert_eq!(cells(&s), vec![(8, 5), (7, 5)]);

    s.restore_tail();
    assert_eq!(cells(&s), vec![(8, 5), (7, 5), (6, 5)]);
}

#[test]
fn left_motion_reaches_the_border_then_wraps() {
    let mut s = Snake::new(0, 0);
    assert_eq!(cells(&s), vec![(2, 0), (1, 0)]);

    s.move_forward(Some(Direction::Left), 10, 10);
    assert_eq!(s.head_position(), (1, 0));

    // At x = 1 the wrap rule does not fire: the head steps onto the border.
    s.move_forward(Some(Direction::Left), 10, 10);
    assert_eq!(s.head_position(), (0, 0));

    // From the border, moving left wraps to width - 2.
    s.move_forward(Some(Direction::Left), 10, 10);
    assert_eq!(s.head_position(), (8, 0));
}

#[test]
fn wrap_at_the_high_edges() {
    // Head at (8, 3) on a 10-wide board: moving right wraps to x = 1.
    let mut s = Snake::new(6, 3);
    assert_eq!(s.head_position(), (8, 3));
    assert_eq!(s.next_head(None, 10, 10), (1, 3));
    s.move_forward(None, 10, 10);
    assert_eq!(s.head_position(), (1, 3));

    // Head at (5, 8) on a 10-tall board: moving down wraps to y = 1.
    let mut t = Snake::new(3, 8);
    assert_eq!(t.head_position(), (5, 8));
    assert_eq!(t.next_head(Some(Direction::Down), 10, 10), (5, 1));
    t.move_forward(Some(Direction::Down), 10, 10);
    assert_eq!(t.head_position(), (5, 1));
}

#[test]
fn wrap_at_the_low_edges() {
    // Head at (5, 0): moving up wraps to y = height - 2.
    let mut s = Snake::new(3, 0);
    assert_eq!(s.head_position(), (5, 0));
    assert_eq!(s.next_head(Some(Direction::Up), 12, 12), (5, 10));
    s.move_forward(Some(Direction::Up), 12, 12);
    assert_eq!(s.head_position(), (5, 10));
}

#[test]
fn opposite_is_an_involution() {
    let headings = [
        Direction::Up,
        Direction::Down,
        Direction::Left,
        Direction::Right,
    ];
    for h in headings {
        assert!(h.opposite().opposite() == h);
    }
    assert!(Direction::Up.opposite() == Direction::Down);
    assert!(Direction::Left.opposite() == Direction::Right);
}

#[test]
fn body_length_constant_without_growth() {
    let mut s = Snake::new(4, 4);
    assert_eq!(cells(&s).len(), 2);
    let moves = [
        None,
        Some(Direction::Down),
        Some(Direction::Left),
        None,
        Some(Direction::Up),
        None,
    ];
    for m in moves {
        s.move_forward(m, 15, 15);
        assert_eq!(cells(&s).len(), 2);
    }
}

#[test]
fn each_growth_adds_the_removed_cell() {
    let mut s = Snake::new(2, 2);
    for step in 0..5 {
        let before = cells(&s);
        let removed = *before.last().unwrap();
        s.move_forward(None, 30, 30);
        s.restore_tail();
        let after = cells(&s);
        assert_eq!(after.len(), before.len() + 1);
        assert_eq!(*after.last().unwrap(), removed);
        assert_eq!(after.len(), 3 + step);
    }
}

#[test]
fn head_matches_prior_next_head() {
    let mut s = Snake::new(7, 3);
    let moves = [
        None,
        Some(Direction::Up),
        Some(Direction::Left),
        Some(Direction::Down),
        None,
    ];
    for m in moves {
        let predicted = s.next_head(m, 9, 9);
        s.move_forward(m, 9, 9);
        assert_eq!(s.head_position(), predicted);
    }
}

#[test]
fn heading_changes_only_when_requested() {
    let mut s = Snake::new(5, 5);
    assert!(matches!(s.head_direction(), Direction::Right));
    s.move_forward(None, 20, 20);
    assert!(matches!(s.head_direction(), Direction::Right));
    s.move_forward(Some(Direction::Up), 20, 20);
    assert!(matches!(s.head_direction(), Direction::Up));
    s.move_forward(None, 20, 20);
    assert!(matches!(s.head_direction(), Direction::Up));
}

#[test]
fn overlap_excludes_the_true_tail() {
    let mut s = Snake::new(5, 5);
    s.move_forward(None, 20, 20);
    s.restore_tail();
    // Body is [(8,5), (7,5), (6,5)]; the true tail (6,5) is excluded.
    assert!(s.overlap_tail(8, 5));
    assert!(s.overlap_tail(7, 5));
    assert!(!s.overlap_tail(6, 5));
    assert!(!s.overlap_tail(1, 1));
    assert!(!s.overlap_tail(8, 6));
}

#[test]
fn next_head_does_not_mutate() {
    let s = Snake::new(3, 3);
    let before = cells(&s);
    let _ = s.next_head(Some(Direction::Up), 10, 10);
    let _ = s.next_head(None, 10, 10);
    assert_eq!(cells(&s), before);
    assert_eq!(s.head_position(), (5, 3));
    assert!(matches!(s.head_direction(), Direction::Right));
}
