use snake_core::apple::place_apple;
use snake_core::board::CellState;
use snake_core::game::{Game, GameStatus, InputKey};
use snake_core::geometry::{BoardConfig, Direction, Pos};

fn cfg() -> BoardConfig {
    BoardConfig { width: 10, height: 10, wrap_horizontal: false, wrap_vertical: false }
}

#[test]
fn three_ticks_right_move_the_snake_without_growth() {
    let mut g = Game::new(cfg());
    let mut rng = rand::thread_rng();
    assert_eq!(g.snake.head_position(), Pos { x: 5, y: 5 });
    assert_eq!(g.snake.tail_position(), Pos { x: 4, y: 5 });
    let expected = [(6u16, 5u16, 5u16), (7, 6, 5), (8, 7, 5)];
    for (hx, tx, y) in expected {
        g.tick(&mut rng);
        assert_eq!(g.status, GameStatus::Playing);
        assert_eq!(g.snake.len(), 2);
        assert_eq!(g.snake.head_position(), Pos { x: hx, y });
        assert_eq!(g.snake.tail_position(), Pos { x: tx, y });
    }
}

#[test]
fn running_into_the_wall_ends_the_game_that_tick() {
    let mut g = Game::new(cfg());
    let mut rng = rand::thread_rng();
    for _ in 0..3 {
        g.tick(&mut rng);
        assert_eq!(g.status, GameStatus::Playing);
    }
    assert_eq!(g.snake.head_position(), Pos { x: 8, y: 5 });
    g.tick(&mut rng);
    assert_eq!(g.status, GameStatus::GameOver);
    // everything but the status is untouched on the fatal tick
    assert_eq!(g.snake.len(), 2);
    assert_eq!(g.snake.head_position(), Pos { x: 8, y: 5 });
    assert_eq!(g.snake.tail_position(), Pos { x: 7, y: 5 });
    assert_eq!(g.board.get(Pos { x: 9, y: 5 }), CellState::Wall);
    assert_eq!(g.board.get(Pos { x: 8, y: 5 }), CellState::SnakeHead);
    assert_eq!(g.apple, None);
}

#[test]
fn eating_grows_the_snake_and_relocates_the_apple() {
    let mut g = Game::new(cfg());
    let mut rng = rand::thread_rng();
    place_apple(&mut g.board, &mut g.apple, Pos { x: 6, y: 5 });
    g.tick(&mut rng);
    assert_eq!(g.status, GameStatus::Playing);
    assert_eq!(g.snake.len(), 3);
    assert_eq!(g.snake.head_position(), Pos { x: 6, y: 5 });
    assert_eq!(g.snake.tail_position(), Pos { x: 4, y: 5 });
    let p = g.apple.expect("a new apple is assigned after eating");
    assert_ne!(p, Pos { x: 6, y: 5 }, "the new apple must differ from the eaten one");
    assert!(1 <= p.x && p.x <= 8 && 1 <= p.y && p.y <= 8);
}

#[test]
fn moving_into_non_tail_body_is_fatal() {
    let mut g = Game::new(cfg());
    let mut rng = rand::thread_rng();
    // grow to length five along a hook: eat at (6,5), (6,6) and (5,6)
    place_apple(&mut g.board, &mut g.apple, Pos { x: 6, y: 5 });
    g.tick(&mut rng);
    place_apple(&mut g.board, &mut g.apple, Pos { x: 6, y: 6 });
    g.handle_key(InputKey::Plain('s'));
    g.tick(&mut rng);
    place_apple(&mut g.board, &mut g.apple, Pos { x: 5, y: 6 });
    g.handle_key(InputKey::Plain('a'));
    g.tick(&mut rng);
    assert_eq!(g.snake.len(), 5);
    assert_eq!(g.snake.head_position(), Pos { x: 5, y: 6 });
    assert_eq!(g.snake.tail_position(), Pos { x: 4, y: 5 });
    // park the apple far away, then turn up into (5,5): body, not the tail
    place_apple(&mut g.board, &mut g.apple, Pos { x: 1, y: 1 });
    g.handle_key(InputKey::Plain('w'));
    g.tick(&mut rng);
    assert_eq!(g.status, GameStatus::GameOver);
    assert_eq!(g.snake.len(), 5);
    assert_eq!(g.snake.head_position(), Pos { x: 5, y: 6 });
}

#[test]
fn moving_into_the_vacating_tail_is_legal() {
    let mut g = Game::new(cfg());
    let mut rng = rand::thread_rng();
    // head (5,5), tail (4,5): stepping onto the tail cell is a legal move,
    // because the tail leaves it on the same tick
    g.direction = Direction::Left;
    g.tick(&mut rng);
    assert_eq!(g.status, GameStatus::Playing);
    assert_eq!(g.snake.len(), 2);
    assert_eq!(g.snake.head_position(), Pos { x: 4, y: 5 });
    assert_eq!(g.snake.tail_position(), Pos { x: 5, y: 5 });
}

#[test]
fn reversal_keys_are_rejected() {
    let mut g = Game::new(cfg());
    g.handle_key(InputKey::Plain('a'));
    assert_eq!(g.direction, Direction::Right);
    g.handle_key(InputKey::Plain('w'));
    assert_eq!(g.direction, Direction::Up);
    let mut rng = rand::thread_rng();
    g.tick(&mut rng);
    g.handle_key(InputKey::Plain('s'));
    assert_eq!(g.direction, Direction::Up);
    g.handle_key(InputKey::Plain('d'));
    assert_eq!(g.direction, Direction::Right);
}

#[test]
fn quit_keys_abandon_the_run() {
    let mut g = Game::new(cfg());
    g.handle_key(InputKey::Ctrl('q'));
    assert_eq!(g.status, GameStatus::GameOver);
    let mut g2 = Game::new(cfg());
    g2.handle_key(InputKey::Alt('q'));
    assert_eq!(g2.status, GameStatus::GameOver);
}

#[test]
fn death_screen_keys() {
    let mut g = Game::new(cfg());
    g.handle_key(InputKey::Ctrl('q'));
    assert_eq!(g.status, GameStatus::GameOver);
    g.handle_key(InputKey::Plain('w'));
    assert_eq!(g.status, GameStatus::GameOver);
    g.handle_key(InputKey::Plain('r'));
    assert_eq!(g.status, GameStatus::Restarting);
    let mut g2 = Game::new(cfg());
    g2.handle_key(InputKey::Ctrl('q'));
    g2.handle_key(InputKey::Plain('q'));
    assert_eq!(g2.status, GameStatus::Quit);
}

#[test]
fn restart_rebuilds_the_session() {
    let mut g = Game::new(cfg());
    let mut rng = rand::thread_rng();
    for _ in 0..4 {
        g.tick(&mut rng);
    }
    assert_eq!(g.status, GameStatus::GameOver);
    g.handle_key(InputKey::Plain('r'));
    assert_eq!(g.status, GameStatus::Restarting);
    g.restart(&mut rng);
    assert_eq!(g.status, GameStatus::Playing);
    assert_eq!(g.snake.len(), 2);
    assert_eq!(g.snake.head_position(), Pos { x: 5, y: 5 });
    assert_eq!(g.snake.tail_position(), Pos { x: 4, y: 5 });
    assert_eq!(g.direction, Direction::Right);
    let p = g.apple.expect("restart places an apple");
    assert!(1 <= p.x && p.x <= 8 && 1 <= p.y && p.y <= 8);
}

#[test]
fn nudge_keys_move_the_apple() {
    let mut g = Game::new(cfg());
    place_apple(&mut g.board, &mut g.apple, Pos { x: 5, y: 3 });
    g.handle_key(InputKey::Plain('i'));
    assert_eq!(g.apple, Some(Pos { x: 5, y: 2 }));
    g.handle_key(InputKey::Plain('l'));
    assert_eq!(g.apple, Some(Pos { x: 6, y: 2 }));
    g.handle_key(InputKey::Plain('k'));
    assert_eq!(g.apple, Some(Pos { x: 6, y: 3 }));
    g.handle_key(InputKey::Plain('j'));
    assert_eq!(g.apple, Some(Pos { x: 5, y: 3 }));
    assert_eq!(g.board.get(Pos { x: 5, y: 3 }), CellState::Apple);
}

#[test]
fn tick_marks_exactly_the_changed_cells_dirty() {
    let mut g = Game::new(cfg());
    let mut rng = rand::thread_rng();
    let full = g.board.take_dirty();
    assert_eq!(full.len(), 100);
    g.tick(&mut rng);
    let delta = g.board.take_dirty();
    assert_eq!(delta.len(), 3);
    assert_eq!(delta[0], (Pos { x: 4, y: 5 }, CellState::Empty));
    assert_eq!(delta[1], (Pos { x: 5, y: 5 }, CellState::SnakeBody));
    assert_eq!(delta[2], (Pos { x: 6, y: 5 }, CellState::SnakeHead));
    assert!(g.board.take_dirty().is_empty());
}

#[test]
fn wrap_around_keeps_the_run_alive_at_the_interior_edge() {
    let wrap = BoardConfig { width: 10, height: 10, wrap_horizontal: true, wrap_vertical: false };
    let mut g = Game::new(wrap);
    let mut rng = rand::thread_rng();
    for _ in 0..3 {
        g.tick(&mut rng);
    }
    assert_eq!(g.snake.head_position(), Pos { x: 8, y: 5 });
    g.tick(&mut rng);
    assert_eq!(g.status, GameStatus::Playing);
    assert_eq!(g.snake.head_position(), Pos { x: 1, y: 5 });
}
