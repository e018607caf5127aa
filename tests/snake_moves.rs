use snake::draw::Paint;
use snake::food::{Food, FoodType};
use snake::snake::{Direction, Snake};

#[test]
fn opposite_is_involutive_and_never_fixed() {
    for d in [Direction::Up, Direction::Down, Direction::Left, Direction::Right] {
        assert_eq!(d.opposite().opposite(), d);
        assert_ne!(d.opposite(), d);
    }
    assert_eq!(Direction::Up.opposite(), Direction::Down);
    assert_eq!(Direction::Left.opposite(), Direction::Right);
}

#[test]
fn new_snake_is_one_cell_heading_right() {
    let s = Snake::new(2, 2);
    assert_eq!(s.head_position(), (2, 2));
    assert_eq!(s.head_direction(), Direction::Right);
    assert_eq!(s.len(), 1);
}

#[test]
fn next_head_follows_direction_without_moving() {
    let s = Snake::new(5, 5);
    assert_eq!(s.next_head(None), (6, 5));
    assert_eq!(s.next_head(Some(Direction::Up)), (5, 4));
    assert_eq!(s.next_head(Some(Direction::Down)), (5, 6));
    assert_eq!(s.next_head(Some(Direction::Left)), (4, 5));
    assert_eq!(s.head_position(), (5, 5));
}

#[test]
fn three_moves_right_from_two_two() {
    let mut s = Snake::new(2, 2);
    s.move_forward(None);
    assert_eq!(s.head_position(), (3, 2));
    s.move_forward(None);
    assert_eq!(s.head_position(), (4, 2));
    s.move_forward(None);
    assert_eq!(s.head_position(), (5, 2));
    assert_eq!(s.len(), 1);
}

#[test]
fn move_keeps_length_and_restore_adds_one() {
    let mut s = Snake::new(2, 2);
    s.move_forward(None);
    s.restore_tail();
    assert_eq!(s.len(), 2);
    assert_eq!(s.segments(), vec![(3, 2), (2, 2)]);
    s.move_forward(Some(Direction::Down));
    assert_eq!(s.len(), 2);
    assert_eq!(s.segments(), vec![(3, 3), (3, 2)]);
    assert_eq!(s.head_direction(), Direction::Down);
    s.restore_tail();
    assert_eq!(s.len(), 3);
    assert_eq!(s.segments(), vec![(3, 3), (3, 2), (2, 2)]);
}

#[test]
fn restore_without_a_move_changes_nothing() {
    let mut s = Snake::new(2, 2);
    s.restore_tail();
    assert_eq!(s.len(), 1);
    s.move_forward(None);
    s.restore_tail();
    s.restore_tail();
    assert_eq!(s.len(), 2);
}

#[test]
fn overlap_tail_skips_the_head() {
    let mut s = Snake::new(2, 2);
    assert!(!s.overlap_tail(2, 2));
    s.move_forward(None);
    s.restore_tail();
    s.move_forward(None);
    s.restore_tail();
    assert_eq!(s.segments(), vec![(4, 2), (3, 2), (2, 2)]);
    assert!(!s.overlap_tail(4, 2));
    assert!(s.overlap_tail(3, 2));
    assert!(s.overlap_tail(2, 2));
    assert!(!s.overlap_tail(5, 2));
}

#[test]
fn portal_moves_whole_body_beside_target() {
    let mut s = Snake::new(2, 2);
    s.move_forward(None);
    s.restore_tail();
    let target = Food::new(10, 10, FoodType::PORTAL);
    assert!(s.can_pass_portal(&target));
    s.move_through_portal(&target);
    assert_eq!(s.segments(), vec![(11, 10), (10, 10)]);
    assert_eq!(s.head_direction(), Direction::Right);
}

#[test]
fn portal_exit_follows_heading() {
    let mut s = Snake::new(2, 2);
    s.move_forward(Some(Direction::Up));
    let target = Food::new(10, 10, FoodType::PORTAL);
    s.move_through_portal(&target);
    assert_eq!(s.head_position(), (10, 9));
    assert_eq!(s.head_direction(), Direction::Up);
}

#[test]
fn portal_pass_refused_when_cells_leave_i32() {
    let mut s = Snake::new(0, 0);
    for _ in 0..4 {
        s.move_forward(None);
        s.restore_tail();
    }
    assert_eq!(s.segments(), vec![(4, 0), (3, 0), (2, 0), (1, 0), (0, 0)]);
    // the head would land on MIN + 3, the last cell four cells further left
    assert!(!s.can_pass_portal(&Food::new(i32::MIN + 2, 0, FoodType::PORTAL)));
    assert!(s.can_pass_portal(&Food::new(i32::MIN + 5, 0, FoodType::PORTAL)));
    s.move_through_portal(&Food::new(i32::MIN + 5, 0, FoodType::PORTAL));
    assert_eq!(s.head_position(), (i32::MIN + 6, 0));
    assert_eq!(s.segments()[4], (i32::MIN + 2, 0));
}

#[test]
fn food_blocks_take_their_kind() {
    let f = Food::new(3, 4, FoodType::NORMAL).draw();
    assert_eq!((f.paint, f.x, f.y, f.width, f.height), (Paint::Food, 3, 4, 1, 1));
    assert_eq!(Food::new(1, 1, FoodType::PORTAL).draw().paint, Paint::Portal);
    assert_eq!(Food::new(1, 1, FoodType::POISON).draw().paint, Paint::Poison);
}
