use snake_game::game::{Game, Input};

#[test]
fn fresh_frame_symbols() {
    let g = Game::new_with_food(5, 5);
    let fr = g.render();
    assert!(fr.alive);
    assert_eq!(fr.score, 0);
    assert_eq!(fr.cells.len(), 20);
    for row in fr.cells.iter() {
        assert_eq!(row.len(), 40);
    }
    // corners and edges of the border
    assert_eq!(fr.cells[0][0], '#');
    assert_eq!(fr.cells[0][39], '#');
    assert_eq!(fr.cells[19][0], '#');
    assert_eq!(fr.cells[19][39], '#');
    assert_eq!(fr.cells[10][0], '#');
    assert_eq!(fr.cells[0][20], '#');
    // the food, the idle head, and an empty cell
    assert_eq!(fr.cells[5][5], '@');
    assert_eq!(fr.cells[10][20], '0');
    assert_eq!(fr.cells[10][21], '.');
}

#[test]
fn head_symbol_follows_direction() {
    for (input, expect) in [
        (Input::MoveUp, '^'),
        (Input::MoveDown, 'v'),
        (Input::MoveLeft, '<'),
        (Input::MoveRight, '>'),
    ] {
        let mut g = Game::new_with_food(5, 5);
        g.update_with_food(input, 5, 5, 6, 6);
        let fr = g.render();
        let h = g.snake.back().unwrap();
        assert_eq!(fr.cells[h.y as usize][h.x as usize], expect);
        // the cell the head left is empty again
        assert_eq!(fr.cells[10][20], '.');
    }
}

#[test]
fn body_and_score_after_eating() {
    let mut g = Game::new_with_food(21, 10);
    g.update_with_food(Input::MoveRight, 5, 5, 22, 10);
    g.update_with_food(Input::Nothing, 5, 5, 30, 15);
    // length three: two body cells behind the head
    let fr = g.render();
    assert_eq!(fr.score, 2);
    assert_eq!(fr.cells[10][22], '>');
    assert_eq!(fr.cells[10][21], '0');
    assert_eq!(fr.cells[10][20], '0');
    assert_eq!(fr.cells[15][30], '@');
}

#[test]
fn dead_frame_reports_not_alive() {
    let mut g = Game::new_with_food(5, 5);
    g.update_with_food(Input::MoveUp, 5, 5, 6, 6);
    for _ in 0..9 {
        g.update_with_food(Input::Nothing, 5, 5, 6, 6);
    }
    assert!(!g.is_alive);
    let fr = g.render();
    assert!(!fr.alive);
    assert_eq!(fr.score, 0);
    // the head is drawn on top of the wall cell it died on
    assert_eq!(fr.cells[0][20], '^');
}
