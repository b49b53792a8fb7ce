use snakes::apple::{
    create_apple_at_time, does_apple_collide_with_snake, is_apple_eaten_by_snake, spawn_chance,
    spawn_trial, Apple, APPLE_LIFE_TIME_MS, SPAWN_DENOMINATOR,
};
use snakes::game::{Game, Mode};
use snakes::geometry::{collides, Vector, COORDINATE_LIMIT};
use snakes::snake::{compute_acceleration, Snake, GLUCOSE_LEVEL_AT_START, SNAKE_HEAD_SIZE, SPEED};
use std::collections::VecDeque;

fn snake_with_spine(head: Vector, spine: Vec<Vector>) -> Snake {
    Snake {
        spine: VecDeque::from(spine),
        time_of_last_redraw: 0,
        head,
        glucose_level: 0,
        velocity: Vector::new(SPEED, 0),
    }
}

fn apple_at(x: i64, y: i64, size: u16, time_of_creation: u64) -> Apple {
    Apple { time_of_creation, size, position: Vector::new(x, y) }
}

#[test]
fn dead_ahead_target_goes_straight() {
    // target at (head.x + 100 px, head.y) with heading (1, 0): bearing zero
    assert_eq!(compute_acceleration(0), 0);
    let mut snake = Snake::initial_snake(Vector::new(400_000, 300_000), 0);
    snake.step(50, 100, Vector::new(SPEED, 0));
    assert_eq!(snake.head, Vector::new(403_000, 300_000));
    assert_eq!(snake.velocity, Vector::new(SPEED, 0));
}

#[test]
fn turn_rate_is_negated_and_clamped() {
    assert_eq!(compute_acceleration(300), -300);
    assert_eq!(compute_acceleration(-300), 300);
    assert_eq!(compute_acceleration(5000), -1000);
    assert_eq!(compute_acceleration(-5000), 1000);
    assert_eq!(compute_acceleration(1000), -1000);
    assert_eq!(compute_acceleration(i64::MIN), 1000);
    assert_eq!(compute_acceleration(i64::MAX), -1000);
}

#[test]
fn movement_rounds_toward_zero_and_stays_in_plane() {
    let p = Vector::new(0, 0);
    assert_eq!(p.translated(Vector::new(-30_000, 15_000), 1), Vector::new(-30, 15));
    assert_eq!(p.translated(Vector::new(-1, 1), 1), Vector::new(0, 0));
    assert_eq!(p.translated(Vector::new(-1999, 1999), 1), Vector::new(-1, 1));
    let edge = Vector::new(COORDINATE_LIMIT, -COORDINATE_LIMIT);
    assert_eq!(edge.translated(Vector::new(SPEED, -SPEED), 1000), edge);
}

#[test]
fn ten_ticks_of_glucose_then_constant_length() {
    let mut snake = Snake::initial_snake(Vector::new(0, 0), 0);
    assert_eq!(snake.spine_len(), 1);
    assert_eq!(snake.glucose_level, GLUCOSE_LEVEL_AT_START);
    for k in 1..=10 {
        snake.grow();
        assert_eq!(snake.spine_len(), 1 + k);
    }
    assert_eq!(snake.spine_len(), 11);
    assert_eq!(snake.glucose_level, 0);
    snake.grow();
    assert_eq!(snake.spine_len(), 11);
    snake.grow();
    assert_eq!(snake.spine_len(), 11);
}

#[test]
fn growth_follows_the_clock_not_the_frames() {
    let mut snake = Snake::initial_snake(Vector::new(0, 0), 1000);
    snake.step(1100, 16, Vector::new(SPEED, 0));
    assert_eq!(snake.spine_len(), 1);
    snake.step(1250, 16, Vector::new(SPEED, 0));
    assert_eq!(snake.spine_len(), 1);
    snake.step(1251, 16, Vector::new(SPEED, 0));
    assert_eq!(snake.spine_len(), 2);
    assert_eq!(snake.time_of_last_redraw, 1250);
    assert_eq!(snake.spine[0], snake.head);
    assert_eq!(snake.glucose_level, GLUCOSE_LEVEL_AT_START - 1);
}

#[test]
fn tail_is_dropped_without_glucose() {
    let a = Vector::new(0, 0);
    let b = Vector::new(1000, 0);
    let mut snake = snake_with_spine(Vector::new(5000, 0), vec![b, a]);
    snake.grow();
    assert_eq!(Vec::from(snake.spine.clone()), vec![Vector::new(5000, 0), b]);
    assert_eq!(snake.glucose_level, 0);
}

#[test]
fn collision_is_strict_and_symmetric() {
    let a = Vector::new(0, 0);
    let b = Vector::new(3000, 4000);
    assert!(!collides(a, 2000, b, 3000));
    assert!(!collides(b, 3000, a, 2000));
    assert!(collides(a, 2001, b, 3000));
    assert!(collides(b, 3000, a, 2001));
    assert!(!collides(a, 0, a, 0));
    assert!(collides(a, 1, a, 0));
}

#[test]
fn apple_eaten_within_reference_reach() {
    let snake = Snake::initial_snake(Vector::new(10_000, 10_000), 0);
    let sizes = vec![200];
    let near = apple_at(11_900, 10_000, 2, 0);
    let far = apple_at(12_300, 10_000, 2, 0);
    assert!(is_apple_eaten_by_snake(&near, &snake, &sizes));
    assert!(!is_apple_eaten_by_snake(&far, &snake, &sizes));
}

#[test]
fn eating_uses_the_mid_body_radius() {
    let head = Vector::new(0, 0);
    let spine = vec![head, Vector::new(1000, 0), Vector::new(2000, 0), Vector::new(3000, 0)];
    let snake = snake_with_spine(head, spine);
    let apple = apple_at(5000, 0, 1, 0);
    assert!(!is_apple_eaten_by_snake(&apple, &snake, &vec![9000, 1, 1, 1]));
    assert!(is_apple_eaten_by_snake(&apple, &snake, &vec![1, 1, 4001, 1]));
}

#[test]
fn dead_zone_segments_never_bite() {
    let head = Vector::new(0, 0);
    let snake = snake_with_spine(head, vec![head; 8]);
    assert!(!snake.does_snake_bite_itself(&vec![5000; 8]));
    let longer = snake_with_spine(head, vec![head; 9]);
    assert!(longer.does_snake_bite_itself(&vec![5000; 9]));
    let mut far = vec![Vector::new(100_000, 0); 9];
    far[3] = head;
    let apart = snake_with_spine(head, far);
    assert!(!apart.does_snake_bite_itself(&vec![5000; 9]));
}

#[test]
fn apple_touching_body_is_detected() {
    let head = Vector::new(0, 0);
    let snake = snake_with_spine(head, vec![Vector::new(50_000, 0), Vector::new(0, 0)]);
    let sizes = vec![1000, 1000];
    assert!(does_apple_collide_with_snake(&apple_at(52_500, 0, 2, 0), &snake, &sizes));
    assert!(!does_apple_collide_with_snake(&apple_at(53_000, 0, 2, 0), &snake, &sizes));
    assert!(does_apple_collide_with_snake(&apple_at(0, 2999, 2, 0), &snake, &sizes));
}

#[test]
fn apple_expires_at_its_life_time() {
    let apple = apple_at(0, 0, 1, 5000);
    assert!(!apple.is_expired(0));
    assert!(!apple.is_expired(5000 + APPLE_LIFE_TIME_MS - 1));
    assert!(apple.is_expired(5000 + APPLE_LIFE_TIME_MS));
    assert!(apple.is_expired(u64::MAX));
    assert!(apple.is_fresh(5000 + APPLE_LIFE_TIME_MS / 2 - 1));
    assert!(!apple.is_fresh(5000 + APPLE_LIFE_TIME_MS / 2));
    assert!(apple.is_fresh(0));
}

#[test]
fn spawn_chance_scales_and_is_held_at_one() {
    assert_eq!(spawn_chance(16, 800, 600), 30_720_000);
    assert_eq!(spawn_chance(0, 800, 600), 0);
    assert_eq!(spawn_chance(16, 0, 600), 0);
    assert_eq!(spawn_chance(1000, 1024, 1024), SPAWN_DENOMINATOR);
    assert_eq!(spawn_chance(250, 1024, 1024), SPAWN_DENOMINATOR);
    assert_eq!(spawn_chance(249, 1024, 1024), 249 * 4 * 1024 * 1024);
    assert_eq!(spawn_chance(1_000_000, 800, 600), SPAWN_DENOMINATOR);
    assert_eq!(spawn_chance(u64::MAX, u32::MAX, u32::MAX), SPAWN_DENOMINATOR);
}

#[test]
fn spawn_trial_at_the_extremes() {
    let mut random = rand::thread_rng();
    for _ in 0..100 {
        assert!(!spawn_trial(&mut random, 0, 800, 600));
        assert!(spawn_trial(&mut random, 1_000_000, 800, 600));
    }
}

#[test]
fn created_apple_lies_in_the_play_area() {
    let mut random = rand::thread_rng();
    for _ in 0..200 {
        let apple = create_apple_at_time(1234, 3, &mut random, 4, 3);
        assert_eq!(apple.time_of_creation, 1234);
        assert_eq!(apple.size, 3);
        assert!(1000 <= apple.position.x && apple.position.x < 4000);
        assert!(1000 <= apple.position.y && apple.position.y < 3000);
    }
}

fn playing_game() -> Game {
    Game::initial_game(Vector::new(100_000, 100_000), 0, apple_at(500_000, 500_000, 1, 0))
}

#[test]
fn new_game_is_in_play() {
    let game = playing_game();
    assert_eq!(game.score, 0);
    assert_eq!(game.mode, Mode::Playing);
    assert_eq!(game.apples.len(), 1);
    assert_eq!(game.snake.spine_len(), 1);
    assert_eq!(game.snake.head, Vector::new(100_000, 100_000));
}

#[test]
fn bite_ends_the_round_with_body_length() {
    let mut game = playing_game();
    let head = game.snake.head;
    game.snake.spine = VecDeque::from(vec![head; 12]);
    game.check_bite(&vec![1000; 12]);
    assert_eq!(game.mode, Mode::Over);
    assert_eq!(game.score, 12);
    let mut calm = playing_game();
    calm.check_bite(&vec![1000]);
    assert_eq!(calm.mode, Mode::Playing);
    assert_eq!(calm.score, 0);
}

#[test]
fn restart_keeps_the_score_only_after_game_over() {
    let mut game = playing_game();
    game.mode = Mode::Over;
    game.score = 42;
    game.snake.glucose_level = 0;
    game.restart(Game::initial_game(Vector::new(1000, 1000), 77, apple_at(0, 0, 2, 77)));
    assert_eq!(game.mode, Mode::Playing);
    assert_eq!(game.score, 42);
    assert_eq!(game.snake.head, Vector::new(1000, 1000));
    assert_eq!(game.snake.glucose_level, GLUCOSE_LEVEL_AT_START);
    assert_eq!(game.apples[0].time_of_creation, 77);
    let mut playing = playing_game();
    playing.score = 5;
    playing.restart(Game::initial_game(Vector::new(1000, 1000), 77, apple_at(0, 0, 2, 77)));
    assert_eq!(playing.score, 5);
    assert_eq!(playing.snake.head, Vector::new(100_000, 100_000));
}

#[test]
fn candidate_touching_body_is_discarded() {
    let mut game = playing_game();
    let on_body = apple_at(100_500, 100_000, 1, 0);
    game.offer_apple(on_body, &vec![1000]);
    assert_eq!(game.apples.len(), 1);
    let clear = apple_at(200_000, 100_000, 1, 0);
    game.offer_apple(clear, &vec![1000]);
    assert_eq!(game.apples.len(), 2);
    assert_eq!(game.apples[1], clear);
}

#[test]
fn apples_are_eaten_expired_or_kept_in_one_pass() {
    let mut game = playing_game();
    game.snake.glucose_level = 0;
    let head = game.snake.head;
    let eaten = apple_at(head.x + 1000, head.y, 3, 1000);
    let expired = apple_at(300_000, 300_000, 2, 0);
    let kept = apple_at(400_000, 400_000, 1, 10_000);
    game.apples = vec![eaten, expired, kept];
    game.update_apples(APPLE_LIFE_TIME_MS, &vec![500]);
    assert_eq!(game.apples, vec![kept]);
    assert_eq!(game.snake.glucose_level, 3);
}

#[test]
fn glucose_saturates() {
    let mut game = playing_game();
    game.snake.glucose_level = u64::MAX - 1;
    let head = game.snake.head;
    game.apples = vec![apple_at(head.x, head.y, 5, 0)];
    game.update_apples(1, &vec![0]);
    assert!(game.apples.is_empty());
    assert_eq!(game.snake.glucose_level, u64::MAX);
}

#[test]
fn one_full_frame() {
    let mut game = playing_game();
    game.begin_frame(300, 100, Vector::new(SPEED, 0));
    assert_eq!(game.snake.head, Vector::new(103_000, 100_000));
    assert_eq!(game.snake.spine_len(), 2);
    let head = game.snake.head;
    let candidate = apple_at(head.x + 2000, head.y, 2, 300);
    game.end_frame(300, &vec![100, 100], Some(candidate));
    assert_eq!(game.mode, Mode::Playing);
    assert!(game.apples.iter().all(|a| a.position != candidate.position));
    assert_eq!(game.apples.len(), 1);
    assert_eq!(game.snake.glucose_level, GLUCOSE_LEVEL_AT_START - 1);
}

#[test]
fn head_radius_sets_bite_reach() {
    let head = Vector::new(0, 0);
    let mut spine = vec![Vector::new(90_000, 0); 9];
    spine[8] = Vector::new(SNAKE_HEAD_SIZE as i64 + 999, 0);
    let snake = snake_with_spine(head, spine.clone());
    assert!(!snake.does_snake_bite_itself(&vec![999; 9]));
    assert!(snake.does_snake_bite_itself(&vec![1000; 9]));
}
