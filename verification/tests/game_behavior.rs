use snake_game::game::{EntityType, Game, Input, Movement};

fn head(g: &Game) -> (u32, u32) {
    let h = g.snake.back().unwrap();
    (h.x, h.y)
}

fn food(g: &Game) -> (u32, u32) {
    let f = g.entities.last().unwrap();
    assert!(f.entity_type == EntityType::Food);
    (f.x, f.y)
}

#[test]
fn fresh_game_initial_state() {
    let g = Game::new_with_food(10, 10);
    assert!(g.is_running);
    assert!(g.is_alive);
    assert_eq!(g.width, 40);
    assert_eq!(g.height, 20);
    assert_eq!(g.movement, None);
    assert_eq!(g.snake.len(), 1);
    assert_eq!(head(&g), (20, 10));
    assert_eq!(g.entities.len(), 2 * 40 + 2 * 18 + 1);
    assert_eq!(food(&g), (10, 10));
    for e in g.entities.iter().take(g.entities.len() - 1) {
        assert!(e.entity_type == EntityType::Wall);
        assert!(e.x == 0 || e.x == 39 || e.y == 0 || e.y == 19);
    }
    // every border coordinate carries a wall
    for x in 0..40u32 {
        for y in 0..20u32 {
            if x == 0 || x == 39 || y == 0 || y == 19 {
                assert!(g.entities.iter().take(g.entities.len() - 1).any(|e| e.x == x
                    && e.y == y));
            }
        }
    }
}

#[test]
fn small_grid_reset() {
    let mut g = Game::new_with_food(10, 10);
    g.width = 7;
    g.height = 7;
    g.init_field_with(2, 4);
    assert_eq!(g.entities.len(), 2 * 7 + 2 * 5 + 1);
    assert_eq!(food(&g), (2, 4));
    assert_eq!(head(&g), (3, 3));
    assert!(g.is_alive);
    assert_eq!(g.movement, None);
}

#[test]
fn single_segment_moves_without_trail() {
    // a one-segment snake leaves no trailing cell behind a plain move
    let mut g = Game::new_with_food(5, 5);
    g.update_with_food(Input::MoveRight, 5, 5, 6, 6);
    assert!(g.is_alive);
    assert_eq!(g.movement, Some(Movement::Right));
    assert_eq!(g.snake.len(), 1);
    assert_eq!(head(&g), (21, 10));
    assert_eq!(food(&g), (5, 5));
}

#[test]
fn advance_offsets_each_direction() {
    for (input, want, expect) in [
        (Input::MoveUp, Movement::Up, (20u32, 9u32)),
        (Input::MoveDown, Movement::Down, (20, 11)),
        (Input::MoveLeft, Movement::Left, (19, 10)),
        (Input::MoveRight, Movement::Right, (21, 10)),
    ] {
        let mut g = Game::new_with_food(5, 5);
        g.update_with_food(input, 5, 5, 6, 6);
        assert_eq!(g.movement, Some(want));
        assert_eq!(head(&g), expect);
        assert_eq!(g.snake.len(), 1);
    }
}

#[test]
fn no_direction_holds_position() {
    let mut g = Game::new_with_food(5, 5);
    g.step_forward();
    assert_eq!(head(&g), (20, 10));
    assert_eq!(g.snake.len(), 1);
    g.update_with_food(Input::Nothing, 5, 5, 6, 6);
    assert_eq!(head(&g), (20, 10));
    assert_eq!(g.snake.len(), 1);
    assert!(g.is_alive);
}

#[test]
fn opposite_direction_is_ignored() {
    let mut g = Game::new_with_food(5, 5);
    g.update_with_food(Input::MoveRight, 5, 5, 6, 6);
    assert_eq!(g.movement, Some(Movement::Right));
    g.update_with_food(Input::MoveLeft, 5, 5, 6, 6);
    // the request for the exact opposite changed nothing; the snake went on
    assert_eq!(g.movement, Some(Movement::Right));
    assert_eq!(head(&g), (22, 10));
    // a perpendicular request is accepted
    g.update_with_food(Input::MoveUp, 5, 5, 6, 6);
    assert_eq!(g.movement, Some(Movement::Up));
    assert_eq!(head(&g), (22, 9));
}

#[test]
fn eating_grows_by_one_and_relocates_food() {
    let mut g = Game::new_with_food(22, 10);
    g.update_with_food(Input::MoveRight, 5, 5, 6, 6);
    assert_eq!(g.snake.len(), 1);
    g.update_with_food(Input::Nothing, 5, 5, 23, 10);
    assert_eq!(g.snake.len(), 2);
    assert_eq!(food(&g), (23, 10));
    g.update_with_food(Input::Nothing, 5, 5, 24, 10);
    assert_eq!(g.snake.len(), 3);
    assert_eq!(food(&g), (24, 10));
    // a length-3 snake eats the food at its next head cell
    g.update_with_food(Input::Nothing, 5, 5, 30, 15);
    assert_eq!(g.snake.len(), 4);
    assert_eq!(head(&g), (24, 10));
    assert!(food(&g) != (24, 10));
    assert_eq!(food(&g), (30, 15));
    assert!(g.is_alive);
    // the whole body is the eaten row
    let parts: Vec<(u32, u32)> = g.snake.iter().map(|p| (p.x, p.y)).collect();
    assert_eq!(parts, vec![(21, 10), (22, 10), (23, 10), (24, 10)]);
}

#[test]
fn wall_hit_kills() {
    let mut g = Game::new_with_food(5, 5);
    g.update_with_food(Input::MoveUp, 5, 5, 6, 6);
    for _ in 0..8 {
        g.update_with_food(Input::Nothing, 5, 5, 6, 6);
    }
    assert!(g.is_alive);
    assert_eq!(head(&g), (20, 1));
    // the next step moves the head onto the top wall
    g.update_with_food(Input::Nothing, 5, 5, 6, 6);
    assert!(!g.is_alive);
    assert_eq!(head(&g), (20, 0));
    assert_eq!(g.snake.len(), 1);
    assert_eq!(food(&g), (5, 5));
    assert_eq!(g.entities.len(), 2 * 40 + 2 * 18 + 1);
    assert!(g.is_running);
}

#[test]
fn death_is_terminal_without_restart() {
    let mut g = Game::new_with_food(5, 5);
    g.update_with_food(Input::MoveUp, 5, 5, 6, 6);
    for _ in 0..9 {
        g.update_with_food(Input::Nothing, 5, 5, 6, 6);
    }
    assert!(!g.is_alive);
    let before: Vec<(u32, u32)> = g.snake.iter().map(|p| (p.x, p.y)).collect();
    g.update_with_food(Input::Nothing, 5, 5, 6, 6);
    g.update_with_food(Input::MoveLeft, 5, 5, 6, 6);
    let after: Vec<(u32, u32)> = g.snake.iter().map(|p| (p.x, p.y)).collect();
    assert!(!g.is_alive);
    assert_eq!(before, after);
    assert_eq!(g.movement, Some(Movement::Up));
    assert_eq!(food(&g), (5, 5));
    // quit still works from the dead state
    g.update_with_food(Input::Quit, 5, 5, 6, 6);
    assert!(!g.is_running);
    assert!(!g.is_alive);
}

#[test]
fn restart_resets_the_board() {
    let mut g = Game::new_with_food(5, 5);
    g.update_with_food(Input::MoveUp, 5, 5, 6, 6);
    for _ in 0..9 {
        g.update_with_food(Input::Nothing, 5, 5, 6, 6);
    }
    assert!(!g.is_alive);
    // restart is ignored while alive, taken while dead
    g.update_with_food(Input::Restart, 10, 12, 5, 5);
    assert!(g.is_alive);
    assert_eq!(g.movement, None);
    assert_eq!(g.snake.len(), 1);
    assert_eq!(head(&g), (20, 10));
    assert_eq!(food(&g), (10, 12));
    assert_eq!(g.entities.len(), 2 * 40 + 2 * 18 + 1);
    for (x, y) in [(0u32, 0u32), (39, 0), (0, 19), (39, 19), (0, 1), (39, 18)] {
        assert!(g.entities.iter().take(g.entities.len() - 1).any(|e| e.x == x && e.y == y));
    }
}

#[test]
fn restart_while_alive_is_ignored() {
    let mut g = Game::new_with_food(5, 5);
    g.update_with_food(Input::MoveRight, 5, 5, 6, 6);
    g.update_with_food(Input::Restart, 10, 12, 5, 5);
    // still the same run: direction kept, head moved on
    assert_eq!(g.movement, Some(Movement::Right));
    assert_eq!(head(&g), (22, 10));
    assert_eq!(food(&g), (5, 5));
}

#[test]
fn self_collision_kills() {
    let mut g = Game::new_with_food(21, 10);
    g.update_with_food(Input::MoveRight, 5, 5, 22, 10);
    g.update_with_food(Input::Nothing, 5, 5, 23, 10);
    g.update_with_food(Input::Nothing, 5, 5, 24, 10);
    g.update_with_food(Input::Nothing, 5, 5, 30, 15);
    assert_eq!(g.snake.len(), 5);
    assert_eq!(head(&g), (24, 10));
    assert!(g.is_alive);
    // a U-turn back into the body
    g.update_with_food(Input::MoveUp, 5, 5, 6, 6);
    g.update_with_food(Input::MoveLeft, 5, 5, 6, 6);
    assert!(g.is_alive);
    g.update_with_food(Input::MoveDown, 5, 5, 6, 6);
    assert!(!g.is_alive);
    assert_eq!(g.snake.len(), 5);
    assert_eq!(head(&g), (23, 10));
}

#[test]
fn food_on_the_center_is_eaten_in_place() {
    // when the food is drawn on the very cell the snake starts on, the first
    // tick eats it where it stands: the snake grows without moving
    let mut g = Game::new_with_food(20, 10);
    g.update_with_food(Input::Nothing, 5, 5, 6, 6);
    assert!(g.is_alive);
    assert_eq!(g.snake.len(), 2);
    assert_eq!(head(&g), (20, 10));
    assert_eq!(food(&g), (6, 6));
}

#[test]
fn quit_halts_the_loop_flag() {
    let mut g = Game::new_with_food(5, 5);
    g.update_with_food(Input::Quit, 5, 5, 6, 6);
    assert!(!g.is_running);
    assert!(g.is_alive);
    assert_eq!(head(&g), (20, 10));
}

#[test]
fn random_food_stays_in_margin() {
    // the drawn food coordinate always lies in the interior margin, never on
    // a wall
    for _ in 0..25 {
        let g = Game::new();
        let (fx, fy) = food(&g);
        assert!((2..38).contains(&fx));
        assert!((2..18).contains(&fy));
        let mut g = g;
        g.update(Input::Nothing);
        let (fx, fy) = food(&g);
        assert!((2..38).contains(&fx));
        assert!((2..18).contains(&fy));
    }
}
