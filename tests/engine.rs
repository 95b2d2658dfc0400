use snake_engine::direction::Direction;
use snake_engine::food::{choose_food_cell, first_free_cell, place_food, SPAWN_ATTEMPTS};
use snake_engine::game::{Game, SnakeMovement, TickEvents};
use snake_engine::input::InputBuffer;
use snake_engine::position::{contains_position, Position, ARENA_HEIGHT, ARENA_WIDTH};
use snake_engine::snake::Snake;

fn game_with(segments: Vec<Position>, heading: Direction, food: Option<Position>) -> Game {
    Game {
        snake: Snake { segments, heading },
        inputs: InputBuffer::new(),
        food,
        last_tail: None,
    }
}

fn p(x: i32, y: i32) -> Position {
    Position::new(x, y)
}

fn no_events() -> TickEvents {
    TickEvents { game_over: false, growth: false, food_needed: false }
}

#[test]
fn opposite_is_an_involution() {
    for d in [Direction::Left, Direction::Up, Direction::Right, Direction::Down] {
        assert_ne!(d.opposite(), d);
        assert_eq!(d.opposite().opposite(), d);
    }
    assert_eq!(Direction::Left.opposite(), Direction::Right);
    assert_eq!(Direction::Up.opposite(), Direction::Down);
}

#[test]
fn step_moves_one_cell() {
    let c = p(5, 5);
    assert_eq!(c.step(Direction::Up), p(5, 6));
    assert_eq!(c.step(Direction::Down), p(5, 4));
    assert_eq!(c.step(Direction::Left), p(4, 5));
    assert_eq!(c.step(Direction::Right), p(6, 5));
}

#[test]
fn arena_bounds() {
    assert!(p(0, 0).is_in_arena());
    assert!(p(ARENA_WIDTH - 1, ARENA_HEIGHT - 1).is_in_arena());
    assert!(!p(-1, 0).is_in_arena());
    assert!(!p(0, -1).is_in_arena());
    assert!(!p(ARENA_WIDTH, 0).is_in_arena());
    assert!(!p(0, ARENA_HEIGHT).is_in_arena());
}

#[test]
fn buffer_drops_commands_beyond_capacity() {
    let mut b = InputBuffer::new();
    b.push(Direction::Left);
    b.push(Direction::Down);
    b.push(Direction::Right);
    b.push(Direction::Up);
    assert_eq!(b.len(), 3);
    assert_eq!(b.to_vec(), vec![Direction::Left, Direction::Down, Direction::Right]);
}

#[test]
fn repeat_and_reverse_commands_leave_heading() {
    let mut b = InputBuffer::new();
    b.push(Direction::Up);
    b.push(Direction::Down);
    b.push(Direction::Up);
    assert_eq!(b.pop_matching(Direction::Up), Direction::Up);
    assert_eq!(b.len(), 0);
}

#[test]
fn first_turn_applies_and_later_commands_stay() {
    let mut b = InputBuffer::new();
    b.push(Direction::Down);
    b.push(Direction::Left);
    b.push(Direction::Up);
    assert_eq!(b.pop_matching(Direction::Up), Direction::Left);
    assert_eq!(b.to_vec(), vec![Direction::Up]);
}

#[test]
fn empty_buffer_keeps_heading() {
    let mut b = InputBuffer::new();
    assert_eq!(b.pop_matching(Direction::Right), Direction::Right);
    assert_eq!(b.len(), 0);
}

#[test]
fn straight_tick_without_input() {
    let mut g = game_with(vec![p(3, 3), p(3, 2)], Direction::Up, None);
    let ev = g.tick();
    assert_eq!(ev, no_events());
    assert_eq!(g.snake.segments, vec![p(3, 4), p(3, 3)]);
    assert_eq!(g.last_tail, Some(p(3, 2)));
}

#[test]
fn leaving_arena_ends_round_and_resets() {
    let mut g = game_with(vec![p(0, 5), p(1, 5)], Direction::Left, Some(p(10, 10)));
    let ev = g.step();
    assert!(ev.game_over);
    assert!(ev.food_needed);
    assert!(!ev.growth);
    assert_eq!(g.snake.segments, vec![p(3, 3), p(3, 2)]);
    assert_eq!(g.snake.heading, Direction::Up);
    assert_eq!(g.inputs.len(), 0);
    let f = g.food.unwrap();
    assert!(f.is_in_arena());
    assert!(!contains_position(&g.snake.segments, f));
}

#[test]
fn leaving_arena_at_top_and_right() {
    let mut g = game_with(vec![p(4, ARENA_HEIGHT - 1), p(4, ARENA_HEIGHT - 2)], Direction::Up, None);
    assert!(g.tick().game_over);
    let mut g = game_with(vec![p(ARENA_WIDTH - 1, 4), p(ARENA_WIDTH - 2, 4)], Direction::Right, None);
    let ev = g.tick();
    assert!(ev.game_over && ev.food_needed);
}

#[test]
fn running_into_body_ends_round() {
    // head at (5,5) heading up, body curls round so that turning left hits it
    let mut g = game_with(
        vec![p(5, 5), p(5, 4), p(4, 4), p(4, 5), p(4, 6)],
        Direction::Up,
        None,
    );
    g.steer(Direction::Left);
    let ev = g.tick();
    assert!(ev.game_over);
    assert!(ev.food_needed);
}

#[test]
fn moving_onto_vacated_tail_cell_ends_round() {
    let mut g = game_with(vec![p(5, 5), p(5, 4), p(4, 4), p(4, 5)], Direction::Up, None);
    g.steer(Direction::Left);
    assert!(g.tick().game_over);
}

#[test]
fn straight_pair_never_collides_with_itself() {
    let mut g = game_with(vec![p(3, 1), p(3, 0)], Direction::Up, None);
    for _ in 0..(ARENA_HEIGHT - 2) {
        let ev = g.tick();
        assert!(!ev.game_over);
    }
    assert_eq!(g.snake.segments, vec![p(3, ARENA_HEIGHT - 1), p(3, ARENA_HEIGHT - 2)]);
    assert!(g.tick().game_over);
}

#[test]
fn eating_grows_and_asks_for_food() {
    let mut g = game_with(vec![p(5, 4), p(5, 3)], Direction::Up, Some(p(5, 5)));
    let ev = g.tick();
    assert_eq!(ev, TickEvents { game_over: false, growth: true, food_needed: true });
    assert_eq!(g.food, None);
    assert_eq!(g.snake.segments, vec![p(5, 5), p(5, 4), p(5, 3)]);
}

#[test]
fn eating_then_food_is_replaced_off_snake() {
    let mut g = game_with(vec![p(5, 4), p(5, 3)], Direction::Up, Some(p(5, 5)));
    let ev = g.step();
    assert!(ev.growth && ev.food_needed && !ev.game_over);
    assert_eq!(g.snake.len(), 3);
    let f = g.food.unwrap();
    assert!(f.is_in_arena());
    assert!(!contains_position(&g.snake.segments, f));
}

#[test]
fn growth_appends_pre_move_tail() {
    let mut g = game_with(vec![p(7, 7), p(6, 7), p(5, 7)], Direction::Right, Some(p(8, 7)));
    let ev = g.tick();
    assert!(ev.growth);
    assert_eq!(g.snake.segments, vec![p(8, 7), p(7, 7), p(6, 7), p(5, 7)]);
    assert_eq!(g.last_tail, Some(p(5, 7)));
}

#[test]
fn no_growth_without_food() {
    let mut g = game_with(vec![p(7, 7), p(6, 7), p(5, 7)], Direction::Right, Some(p(1, 1)));
    let ev = g.tick();
    assert!(!ev.growth);
    assert_eq!(g.snake.len(), 3);
    assert_eq!(g.food, Some(p(1, 1)));
}

#[test]
fn reset_restores_start_state() {
    let mut g = game_with(vec![p(9, 9), p(9, 8), p(9, 7)], Direction::Right, Some(p(1, 1)));
    g.steer(Direction::Up);
    assert!(g.reset_on_game_over(true));
    assert_eq!(g.snake.segments, vec![p(3, 3), p(3, 2)]);
    assert_eq!(g.snake.heading, Direction::Up);
    assert_eq!(g.inputs.len(), 0);
    assert_eq!(g.food, None);
    assert_eq!(g.last_tail, None);
}

#[test]
fn no_reset_without_game_over() {
    let mut g = game_with(vec![p(9, 9), p(9, 8)], Direction::Right, Some(p(1, 1)));
    assert!(!g.reset_on_game_over(false));
    assert_eq!(g.snake.segments, vec![p(9, 9), p(9, 8)]);
    assert_eq!(g.food, Some(p(1, 1)));
}

#[test]
fn new_game_places_food_off_snake() {
    let g = Game::new();
    assert_eq!(g.snake.segments, vec![p(3, 3), p(3, 2)]);
    assert_eq!(g.snake.heading, Direction::Up);
    let f = g.food.unwrap();
    assert!(f.is_in_arena());
    assert!(!contains_position(&g.snake.segments, f));
}

#[test]
fn first_free_candidate_wins() {
    let snake = vec![p(1, 1), p(1, 2)];
    let cands = vec![p(1, 1), p(-1, 0), p(4, 4), p(5, 5)];
    assert_eq!(choose_food_cell(&snake, &cands), Some(p(4, 4)));
}

#[test]
fn scan_used_when_no_candidate_is_free() {
    let snake = vec![p(0, 0), p(1, 0)];
    let cands = vec![p(0, 0), p(ARENA_WIDTH, 0)];
    assert_eq!(choose_food_cell(&snake, &cands), Some(p(2, 0)));
    assert_eq!(first_free_cell(&snake), Some(p(2, 0)));
}

fn full_arena_except(skip: Option<Position>) -> Vec<Position> {
    let mut cells = Vec::new();
    for y in 0..ARENA_HEIGHT {
        for x in 0..ARENA_WIDTH {
            if Some(p(x, y)) != skip {
                cells.push(p(x, y));
            }
        }
    }
    cells
}

#[test]
fn full_arena_has_no_food_cell() {
    let cells = full_arena_except(None);
    assert_eq!(first_free_cell(&cells), None);
    assert_eq!(place_food(&cells), None);
}

#[test]
fn last_free_cell_is_found() {
    let cells = full_arena_except(Some(p(17, 11)));
    assert_eq!(place_food(&cells), Some(p(17, 11)));
}

#[test]
fn random_placement_varies_and_stays_free() {
    let snake = vec![p(3, 3), p(3, 2)];
    let mut seen: Vec<Position> = Vec::new();
    for _ in 0..64 {
        let f = place_food(&snake).unwrap();
        assert!(f.is_in_arena());
        assert!(!contains_position(&snake, f));
        if !seen.contains(&f) {
            seen.push(f);
        }
    }
    assert!(seen.len() > 1);
    assert!(SPAWN_ATTEMPTS > 0);
}

#[test]
fn phases_are_distinct() {
    let phases = [
        SnakeMovement::Input,
        SnakeMovement::Movement,
        SnakeMovement::Eating,
        SnakeMovement::Growth,
    ];
    for i in 0..phases.len() {
        for j in 0..phases.len() {
            assert_eq!(phases[i] == phases[j], i == j);
        }
    }
}
