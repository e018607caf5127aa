use snake::draw::Paint;
use snake::food::FoodType;
use snake::game::{Game, Key, MOVING_PERIOD, RESTART_TIME};
use snake::snake::Direction;

fn head(g: &Game) -> (i32, i32) {
    g.snake().head_position()
}

#[test]
fn new_game_starts_at_two_two_without_food() {
    let g = Game::new(30, 30);
    assert_eq!(head(&g), (2, 2));
    assert_eq!(g.snake().len(), 1);
    assert_eq!(g.snake().head_direction(), Direction::Right);
    assert!(!g.food_exists());
    assert!(!g.is_game_over());
    assert_eq!(g.waiting_time(), 0);
}

#[test]
fn three_steps_right_stay_alive_beside_poison() {
    let mut g = Game::with_markers(10, 10, (40, 40), (50, 50), (5, 5));
    let expected = [(3, 2), (4, 2), (5, 2)];
    for cell in expected {
        assert!(g.check_if_snake_alive(None));
        g.key_pressed(Key::Other);
        assert_eq!(head(&g), cell);
        assert!(!g.is_game_over());
    }
}

#[test]
fn reverse_key_is_ignored() {
    let mut g = Game::new(30, 30);
    g.key_pressed(Key::Left);
    assert_eq!(head(&g), (2, 2));
    assert_eq!(g.snake().head_direction(), Direction::Right);
    g.key_pressed(Key::Down);
    assert_eq!(head(&g), (2, 3));
    g.key_pressed(Key::Up);
    assert_eq!(head(&g), (2, 3));
    assert_eq!(g.snake().head_direction(), Direction::Down);
}

#[test]
fn arrow_key_moves_at_once_and_resets_timer() {
    let mut g = Game::new(30, 30);
    g.update(50_000);
    assert_eq!(g.waiting_time(), 50_000);
    g.key_pressed(Key::Down);
    assert_eq!(head(&g), (2, 3));
    assert_eq!(g.waiting_time(), 0);
}

#[test]
fn border_ring_kills() {
    let g = Game::new(10, 10);
    // from (2, 2): up lands on y = 1, left on x = 1, both inside
    assert!(g.check_if_snake_alive(Some(Direction::Up)));
    let mut g = Game::new(10, 10);
    g.key_pressed(Key::Up);
    assert_eq!(head(&g), (2, 1));
    assert!(!g.check_if_snake_alive(Some(Direction::Up)));
    let mut g = Game::new(10, 10);
    g.key_pressed(Key::Down);
    g.key_pressed(Key::Left);
    assert_eq!(head(&g), (1, 3));
    assert!(!g.check_if_snake_alive(None));
    let mut g = Game::new(5, 5);
    g.key_pressed(Key::Right);
    assert_eq!(head(&g), (3, 2));
    assert!(!g.check_if_snake_alive(None));
    g.key_pressed(Key::Down);
    assert_eq!(head(&g), (3, 3));
    assert!(!g.check_if_snake_alive(None));
}

#[test]
fn poison_kills_even_inside() {
    let g = Game::with_markers(10, 10, (40, 40), (50, 50), (3, 2));
    assert!(!g.check_if_snake_alive(None));
    assert!(g.check_if_snake_alive(Some(Direction::Down)));
    let mut g = Game::with_markers(10, 10, (40, 40), (50, 50), (3, 2));
    g.key_pressed(Key::Right);
    assert!(g.is_game_over());
    assert_eq!(head(&g), (2, 2));
}

#[test]
fn eating_grows_and_clears_food() {
    let mut g = Game::new(30, 30);
    assert!(g.place_food(3, 2));
    assert!(g.food_exists());
    assert_eq!((g.food().x, g.food().y), (3, 2));
    g.key_pressed(Key::Right);
    assert_eq!(head(&g), (3, 2));
    assert!(!g.food_exists());
    assert_eq!(g.snake().len(), 2);
    assert_eq!(g.snake().segments(), vec![(3, 2), (2, 2)]);
}

#[test]
fn food_is_not_placed_on_border_or_tail() {
    let mut g = Game::new(30, 30);
    assert!(!g.place_food(0, 5));
    assert!(!g.place_food(29, 5));
    assert!(!g.place_food(5, 0));
    assert!(!g.place_food(5, 29));
    assert!(!g.food_exists());
    assert!(g.place_food(3, 2));
    g.key_pressed(Key::Right);
    assert!(!g.place_food(2, 2));
    assert!(g.place_food(28, 28));
}

#[test]
fn tick_places_food_on_a_free_inner_cell() {
    let mut g = Game::new(10, 10);
    g.update(1);
    assert!(g.food_exists());
    let f = g.food();
    assert!(f.x >= 1 && f.x <= 8 && f.y >= 1 && f.y <= 8);
    assert!(!g.snake().overlap_tail(f.x, f.y));
    assert_eq!(head(&g), (2, 2));
}

#[test]
fn only_free_cell_gets_the_food() {
    let mut g = Game::new(3, 3);
    g.update(1);
    assert!(g.food_exists());
    assert_eq!((g.food().x, g.food().y), (1, 1));
}

#[test]
fn board_without_inner_cells_gets_no_food() {
    let mut g = Game::new(2, 2);
    g.update(1);
    assert!(!g.food_exists());
}

#[test]
fn tick_moves_only_after_the_period() {
    let mut g = Game::new(30, 30);
    g.update(MOVING_PERIOD);
    assert_eq!(head(&g), (2, 2));
    assert_eq!(g.waiting_time(), MOVING_PERIOD);
    g.update(1);
    assert_eq!(head(&g), (3, 2));
    assert_eq!(g.waiting_time(), 0);
}

#[test]
fn game_over_waits_then_restarts() {
    let mut g = Game::new(10, 10);
    g.key_pressed(Key::Up);
    g.key_pressed(Key::Up);
    assert!(g.is_game_over());
    assert_eq!(g.waiting_time(), 0);
    g.update(500_000);
    assert!(g.is_game_over());
    g.update(400_000);
    assert!(g.is_game_over());
    g.update(RESTART_TIME - 900_000);
    assert!(g.is_game_over());
    g.key_pressed(Key::Down);
    assert!(g.is_game_over());
    assert_eq!(head(&g), (2, 1));
    g.update(1);
    assert!(!g.is_game_over());
    assert_eq!(head(&g), (2, 2));
    assert_eq!(g.snake().len(), 1);
    assert_eq!(g.snake().head_direction(), Direction::Right);
    assert!(!g.food_exists());
    assert_eq!(g.waiting_time(), 0);
}

#[test]
fn timer_saturates() {
    let mut g = Game::new(10, 10);
    g.key_pressed(Key::Up);
    g.key_pressed(Key::Up);
    g.update(u64::MAX);
    assert!(!g.is_game_over());
    let mut h = Game::new(3, 3);
    h.key_pressed(Key::Up);
    h.key_pressed(Key::Up);
    assert!(h.is_game_over());
}

#[test]
fn portal_drops_head_beside_other_end() {
    let mut g = Game::new(50, 20);
    g.key_pressed(Key::Down);
    g.key_pressed(Key::Down);
    g.key_pressed(Key::Right);
    assert_eq!(head(&g), (3, 4));
    g.key_pressed(Key::Right);
    assert_eq!(head(&g), (41, 10));
    assert_eq!(g.snake().head_direction(), Direction::Right);
    assert!(!g.is_game_over());
}

#[test]
fn portal_works_both_ways() {
    let mut g = Game::with_markers(30, 30, (10, 2), (4, 4), (28, 28));
    g.key_pressed(Key::Down);
    g.key_pressed(Key::Down);
    g.key_pressed(Key::Right);
    g.key_pressed(Key::Right);
    assert_eq!(head(&g), (11, 2));
    g.key_pressed(Key::Up);
    assert_eq!(head(&g), (11, 1));
}

#[test]
fn frame_lists_snake_markers_borders_and_shade() {
    let mut g = Game::new(10, 8);
    let frame = g.draw();
    assert_eq!(frame.len(), 8);
    assert_eq!((frame[0].paint, frame[0].x, frame[0].y), (Paint::Snake, 2, 2));
    assert_eq!((frame[1].paint, frame[1].x, frame[1].y), (Paint::Portal, 4, 4));
    assert_eq!((frame[2].paint, frame[2].x, frame[2].y), (Paint::Portal, 40, 10));
    assert_eq!((frame[3].paint, frame[3].x, frame[3].y), (Paint::Poison, 28, 6));
    assert_eq!(
        (frame[5].paint, frame[5].x, frame[5].y, frame[5].width, frame[5].height),
        (Paint::Border, 0, 7, 10, 1)
    );
    assert_eq!(
        (frame[7].paint, frame[7].x, frame[7].y, frame[7].width, frame[7].height),
        (Paint::Border, 9, 0, 1, 8)
    );
    assert!(g.place_food(3, 3));
    g.key_pressed(Key::Up);
    g.key_pressed(Key::Up);
    let frame = g.draw();
    assert_eq!(frame.len(), 10);
    assert_eq!((frame[4].paint, frame[4].x, frame[4].y), (Paint::Food, 3, 3));
    assert_eq!(
        (frame[9].paint, frame[9].width, frame[9].height),
        (Paint::GameOver, 10, 8)
    );
}

#[test]
fn running_into_own_body_ends_the_game() {
    let mut g = Game::new(30, 30);
    for x in 3..7 {
        assert!(g.place_food(x, 2));
        g.key_pressed(Key::Right);
    }
    assert_eq!(g.snake().segments(), vec![(6, 2), (5, 2), (4, 2), (3, 2), (2, 2)]);
    assert!(!g.snake().overlap_tail(6, 2));
    g.key_pressed(Key::Down);
    g.key_pressed(Key::Left);
    assert_eq!(head(&g), (5, 3));
    assert!(!g.is_game_over());
    assert!(!g.check_if_snake_alive(Some(Direction::Up)));
    g.key_pressed(Key::Up);
    assert!(g.is_game_over());
    assert_eq!(head(&g), (5, 3));
}

#[test]
fn markers_keep_their_kinds() {
    let mut g = Game::new(30, 30);
    assert_eq!(g.food().food_type, FoodType::NORMAL);
    assert_eq!((g.food().x, g.food().y), (6, 4));
    assert!(g.place_food(3, 2));
    assert_eq!(g.food().food_type, FoodType::NORMAL);
    g.key_pressed(Key::Right);
    assert_eq!(g.food().food_type, FoodType::NORMAL);
    let frame = g.draw();
    assert_eq!(frame[2].paint, Paint::Portal);
    assert_eq!(frame[3].paint, Paint::Portal);
    assert_eq!(frame[4].paint, Paint::Poison);
}
