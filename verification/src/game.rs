//! The game model of a terminal snake game: a bounded grid with a wall
//! border, one food cell, and a snake that grows when it eats.
//!
//! The whole per-tick behaviour is captured by the spec-level transition
//! functions (`spec_reset`, `spec_handle_input`, `spec_step`, `spec_update`);
//! the executable methods on [`Game`] are proved to follow them exactly.
//! Randomness enters only through the food draws: every public operation that
//! draws has a deterministic twin taking the drawn coordinates as arguments.

use std::collections::VecDeque;
use vstd::prelude::*;

verus! {

/// The grid width a new game is created with.
pub const GRID_WIDTH: u32 = 40;

/// The grid height a new game is created with.
pub const GRID_HEIGHT: u32 = 20;

/// A direction of travel for the snake.
#[derive(Clone, Copy, PartialEq, Eq, Structural, Debug)]
pub enum Movement {
    Up,
    Down,
    Left,
    Right,
}

/// What a board entity is: a border wall cell or the food cell.
#[derive(Clone, Copy, PartialEq, Eq, Structural, Debug)]
pub enum EntityType {
    Wall,
    Food,
}

/// A board entity at a grid coordinate.
pub struct Entity {
    pub entity_type: EntityType,
    pub x: u32,
    pub y: u32,
}

/// One segment of the snake's body.
#[derive(Clone, Copy, PartialEq, Eq, Structural, Debug)]
pub struct SnakePart {
    pub x: u32,
    pub y: u32,
}

/// A single discrete input event for one tick.
#[derive(Clone, Copy, PartialEq, Eq, Structural, Debug)]
pub enum Input {
    Quit,
    Restart,
    MoveUp,
    MoveDown,
    MoveLeft,
    MoveRight,
    Nothing,
}

/// The whole game state. The snake is ordered front = tail, back = head.
pub struct Game {
    pub is_running: bool,
    pub is_alive: bool,
    pub width: u32,
    pub height: u32,
    pub movement: Option<Movement>,
    pub entities: Vec<Entity>,
    pub snake: VecDeque<SnakePart>,
}

/// The mathematical model of a [`Game`]: the same fields over `int` and `Seq`.
#[verifier::ext_equal]
pub struct GameView {
    pub running: bool,
    pub alive: bool,
    pub width: int,
    pub height: int,
    pub movement: Option<Movement>,
    pub entities: Seq<Entity>,
    pub snake: Seq<SnakePart>,
}

impl View for Game {
    type V = GameView;

    open spec fn view(&self) -> GameView {
        GameView {
            running: self.is_running,
            alive: self.is_alive,
            width: self.width as int,
            height: self.height as int,
            movement: self.movement,
            entities: self.entities@,
            snake: self.snake@,
        }
    }
}

/// A coordinate of the rectangular wall border: the top and bottom rows and
/// the left and right columns of the grid.
pub open spec fn wall_coord(width: int, height: int, x: int, y: int) -> bool {
    &&& 0 <= x < width
    &&& 0 <= y < height
    &&& (x == 0 || x == width - 1 || y == 0 || y == height - 1)
}

/// A coordinate where food may be placed: the open interior excluding a
/// two-cell margin from every border.
pub open spec fn margin_coord(width: int, height: int, x: int, y: int) -> bool {
    &&& 2 <= x < width - 2
    &&& 2 <= y < height - 2
}

/// A coordinate strictly inside the wall border.
pub open spec fn interior_coord(width: int, height: int, x: int, y: int) -> bool {
    &&& 1 <= x < width - 1
    &&& 1 <= y < height - 1
}

/// The direction exactly opposite to `m`.
pub open spec fn opposite(m: Movement) -> Movement {
    match m {
        Movement::Up => Movement::Down,
        Movement::Down => Movement::Up,
        Movement::Left => Movement::Right,
        Movement::Right => Movement::Left,
    }
}

/// Where the head moves in one step: one cell along `m`, or in place when no
/// direction has been chosen yet.
pub open spec fn spec_new_head(head: SnakePart, m: Option<Movement>) -> SnakePart {
    match m {
        Option::None => head,
        Option::Some(Movement::Up) => SnakePart { x: head.x, y: (head.y - 1) as u32 },
        Option::Some(Movement::Down) => SnakePart { x: head.x, y: (head.y + 1) as u32 },
        Option::Some(Movement::Left) => SnakePart { x: (head.x - 1) as u32, y: head.y },
        Option::Some(Movement::Right) => SnakePart { x: (head.x + 1) as u32, y: head.y },
    }
}

/// One geometric shift of the body: the tail is dropped and a new head is
/// appended, or nothing moves when no direction has been chosen yet.
pub open spec fn spec_advance_snake(s: Seq<SnakePart>, m: Option<Movement>) -> Seq<SnakePart> {
    match m {
        Option::None => s,
        Option::Some(_) => s.drop_first().push(spec_new_head(s.last(), m)),
    }
}

impl GameView {
    /// The food entity; it is always the last entity.
    pub open spec fn food(self) -> Entity {
        self.entities.last()
    }

    /// The head segment: the back of the snake sequence.
    pub open spec fn head(self) -> SnakePart {
        self.snake.last()
    }

    /// Some wall entity sits at `(x, y)`.
    pub open spec fn wall_entity_at(self, x: u32, y: u32) -> bool {
        exists|i: int|
            0 <= i < self.entities.len() - 1 && (#[trigger] self.entities[i]).x == x
                && self.entities[i].y == y
    }

    /// Some body segment other than the head sits at `(x, y)`.
    pub open spec fn body_at(self, x: u32, y: u32) -> bool {
        exists|i: int|
            0 <= i < self.snake.len() - 1 && (#[trigger] self.snake[i]).x == x
                && self.snake[i].y == y
    }

    /// The entity list is one food entity, preceded by wall entities that
    /// cover the border exactly.
    pub open spec fn entities_wf(self) -> bool {
        &&& self.entities.len() >= 1
        &&& self.food().entity_type == EntityType::Food
        &&& margin_coord(self.width, self.height, self.food().x as int, self.food().y as int)
        &&& forall|i: int|
            0 <= i < self.entities.len() - 1 ==> (#[trigger] self.entities[i]).entity_type
                == EntityType::Wall
                && wall_coord(
                self.width,
                self.height,
                self.entities[i].x as int,
                self.entities[i].y as int,
            )
        &&& forall|x: int, y: int|
            #[trigger] wall_coord(self.width, self.height, x, y) ==> exists|i: int|
                0 <= i < self.entities.len() - 1 && (#[trigger] self.entities[i]).x as int == x
                    && self.entities[i].y as int == y
    }

    /// The snake is non-empty, stays on the grid, and its head is strictly
    /// inside the border whenever the game is alive.
    pub open spec fn snake_wf(self) -> bool {
        &&& self.snake.len() >= 1
        &&& forall|i: int|
            0 <= i < self.snake.len() ==> (#[trigger] self.snake[i]).x < self.width
                && self.snake[i].y < self.height
        &&& (self.alive ==> interior_coord(
            self.width,
            self.height,
            self.head().x as int,
            self.head().y as int,
        ))
    }

    /// Well-formedness of a game state: dimensions large enough for the food
    /// margin, a full wall border plus one food entity, and a sound snake.
    pub open spec fn wf(self) -> bool {
        &&& 5 <= self.width <= u32::MAX
        &&& 5 <= self.height <= u32::MAX
        &&& self.entities_wf()
        &&& self.snake_wf()
    }

    /// One step of the head stays within `u32` arithmetic.
    pub open spec fn can_advance(self) -> bool {
        &&& self.snake.len() >= 1
        &&& match self.movement {
            Option::Some(Movement::Up) => self.head().y >= 1,
            Option::Some(Movement::Down) => self.head().y < u32::MAX,
            Option::Some(Movement::Left) => self.head().x >= 1,
            Option::Some(Movement::Right) => self.head().x < u32::MAX,
            Option::None => true,
        }
    }

    /// The state after one geometric shift of the snake.
    pub open spec fn advanced(self) -> GameView {
        GameView { snake: spec_advance_snake(self.snake, self.movement), ..self }
    }

    /// The state with the food moved to `(fx, fy)`.
    pub open spec fn with_food_at(self, fx: u32, fy: u32) -> GameView {
        GameView {
            entities: self.entities.update(
                self.entities.len() - 1,
                Entity { entity_type: EntityType::Food, x: fx, y: fy },
            ),
            ..self
        }
    }
}

/// The wall entities of the top row, `(i, 0)` for `i` below `width`.
pub open spec fn top_row(width: int) -> Seq<Entity> {
    Seq::new(width as nat, |i: int| Entity { entity_type: EntityType::Wall, x: i as u32, y: 0 })
}

/// The wall entities of the bottom row, `(i, height - 1)` for `i` below `width`.
pub open spec fn bottom_row(width: int, height: int) -> Seq<Entity> {
    Seq::new(
        width as nat,
        |i: int| Entity { entity_type: EntityType::Wall, x: i as u32, y: (height - 1) as u32 },
    )
}

/// The wall entities of the left column over the interior rows, `(0, i + 1)`.
pub open spec fn left_column(height: int) -> Seq<Entity> {
    Seq::new(
        (height - 2) as nat,
        |i: int| Entity { entity_type: EntityType::Wall, x: 0, y: (i + 1) as u32 },
    )
}

/// The wall entities of the right column over the interior rows,
/// `(width - 1, i + 1)`.
pub open spec fn right_column(width: int, height: int) -> Seq<Entity> {
    Seq::new(
        (height - 2) as nat,
        |i: int| Entity { entity_type: EntityType::Wall, x: (width - 1) as u32, y: (i + 1) as u32 },
    )
}

/// The wall entities of a fresh board: the top row, the bottom row, then the
/// left and right columns over the interior rows.
pub open spec fn border_walls(width: int, height: int) -> Seq<Entity> {
    top_row(width) + bottom_row(width, height) + left_column(height) + right_column(width, height)
}

/// The border walls are exactly the wall coordinates: every listed entity is
/// a wall on the border, and every border coordinate carries a listed wall.
pub proof fn lemma_border_walls_cover(width: int, height: int)
    requires
        5 <= width <= u32::MAX,
        5 <= height <= u32::MAX,
    ensures
        border_walls(width, height).len() == 2 * width + 2 * (height - 2),
        forall|i: int|
            0 <= i < border_walls(width, height).len() ==> (#[trigger] border_walls(
                width,
                height,
            )[i]).entity_type == EntityType::Wall
                && wall_coord(
                width,
                height,
                border_walls(width, height)[i].x as int,
                border_walls(width, height)[i].y as int,
            ),
        forall|x: int, y: int|
            #[trigger] wall_coord(width, height, x, y) ==> exists|i: int|
                0 <= i < border_walls(width, height).len() && (#[trigger] border_walls(
                    width,
                    height,
                )[i]).x as int == x && border_walls(width, height)[i].y as int == y,
{
    let bw = border_walls(width, height);
    assert forall|x: int, y: int| #[trigger] wall_coord(width, height, x, y) implies exists|i: int|
        0 <= i < bw.len() && (#[trigger] bw[i]).x as int == x && bw[i].y as int == y by {
        if y == 0 {
            assert(bw[x].x as int == x && bw[x].y as int == y);
        } else if y == height - 1 {
            assert(bw[width + x].x as int == x && bw[width + x].y as int == y);
        } else if x == 0 {
            assert(bw[2 * width + (y - 1)].x as int == x && bw[2 * width + (y - 1)].y as int == y);
        } else {
            let i = 2 * width + (height - 2) + (y - 1);
            assert(bw[i].x as int == x && bw[i].y as int == y);
        }
    }
}

/// A reset state is well formed: the border is fully walled, the food sits
/// in the interior margin, and the one-segment snake sits at the center.
pub proof fn lemma_reset_wf(g: GameView, fx: u32, fy: u32)
    requires
        5 <= g.width <= u32::MAX,
        5 <= g.height <= u32::MAX,
        margin_coord(g.width, g.height, fx as int, fy as int),
    ensures
        spec_reset(g, fx, fy).wf(),
        spec_reset(g, fx, fy).entities.len() == 2 * g.width + 2 * (g.height - 2) + 1,
{
    lemma_border_walls_cover(g.width, g.height);
    let r = spec_reset(g, fx, fy);
    assert forall|x: int, y: int| #[trigger] wall_coord(r.width, r.height, x, y) implies exists|
        i: int,
    |
        0 <= i < r.entities.len() - 1 && (#[trigger] r.entities[i]).x as int == x
            && r.entities[i].y as int == y by {
        let bw = border_walls(g.width, g.height);
        let i = choose|i: int| 0 <= i < bw.len() && (#[trigger] bw[i]).x as int == x && bw[i].y as int == y;
        assert(r.entities[i].x as int == x && r.entities[i].y as int == y);
    }
}

/// A fresh playable board over the old grid dimensions: alive, no direction,
/// a full wall border, food at `(fx, fy)`, and a one-segment snake at the
/// grid center.
pub open spec fn spec_reset(g: GameView, fx: u32, fy: u32) -> GameView {
    GameView {
        alive: true,
        movement: Option::None,
        entities: border_walls(g.width, g.height).push(
            Entity { entity_type: EntityType::Food, x: fx, y: fy },
        ),
        snake: seq![
            SnakePart { x: (g.width / 2) as u32, y: (g.height / 2) as u32 },
        ],
        ..g
    }
}

/// The effect of requesting direction `want`: accepted while alive unless it
/// is the exact opposite of the current direction; ignored when dead.
pub open spec fn spec_try_turn(g: GameView, want: Movement) -> GameView {
    if g.alive && g.movement != Option::Some(opposite(want)) {
        GameView { movement: Option::Some(want), ..g }
    } else {
        g
    }
}

/// The effect of one input event, before the simulation step. `rx, ry` is
/// the food coordinate a restart draws.
pub open spec fn spec_handle_input(g: GameView, input: Input, rx: u32, ry: u32) -> GameView {
    match input {
        Input::Quit => GameView { running: false, ..g },
        Input::Restart => if !g.alive {
            spec_reset(g, rx, ry)
        } else {
            g
        },
        Input::MoveUp => spec_try_turn(g, Movement::Up),
        Input::MoveDown => spec_try_turn(g, Movement::Down),
        Input::MoveLeft => spec_try_turn(g, Movement::Left),
        Input::MoveRight => spec_try_turn(g, Movement::Right),
        Input::Nothing => g,
    }
}

/// One simulation step of an alive game: advance, die on a wall, otherwise
/// eat (relocating the food to `(ex, ey)`), die on the body, and grow by
/// keeping the old tail on the tick the food was eaten.
pub open spec fn spec_step(g: GameView, ex: u32, ey: u32) -> GameView {
    let a = g.advanced();
    if a.wall_entity_at(a.head().x, a.head().y) {
        GameView { alive: false, ..a }
    } else {
        let ate = a.food().x == a.head().x && a.food().y == a.head().y;
        let b = if ate {
            a.with_food_at(ex, ey)
        } else {
            a
        };
        if b.body_at(b.head().x, b.head().y) {
            GameView { alive: false, ..b }
        } else if ate {
            GameView { snake: seq![g.snake[0]] + b.snake, ..b }
        } else {
            b
        }
    }
}

/// One whole tick: the input event, then, if the game is alive afterwards,
/// one simulation step.
pub open spec fn spec_update(
    g: GameView,
    input: Input,
    rx: u32,
    ry: u32,
    ex: u32,
    ey: u32,
) -> GameView {
    let h = spec_handle_input(g, input, rx, ry);
    if !h.alive {
        h
    } else {
        spec_step(h, ex, ey)
    }
}

/// A fresh game with the default grid dimensions and food at `(fx, fy)`.
pub open spec fn spec_new(fx: u32, fy: u32) -> GameView {
    spec_reset(
        GameView {
            running: true,
            alive: true,
            width: GRID_WIDTH as int,
            height: GRID_HEIGHT as int,
            movement: Option::None,
            entities: Seq::empty(),
            snake: Seq::empty(),
        },
        fx,
        fy,
    )
}

/// Input handling keeps the state well formed and, while it leaves the game
/// alive, leaves the board able to take one step of the head.
pub proof fn lemma_handle_input_wf(g: GameView, input: Input, rx: u32, ry: u32)
    requires
        g.wf(),
        margin_coord(g.width, g.height, rx as int, ry as int),
    ensures
        spec_handle_input(g, input, rx, ry).wf(),
        spec_handle_input(g, input, rx, ry).alive ==> spec_handle_input(
            g,
            input,
            rx,
            ry,
        ).can_advance(),
        g.alive ==> {
            let h = spec_handle_input(g, input, rx, ry);
            h.alive && h.entities == g.entities && h.snake == g.snake && h.width == g.width
                && h.height == g.height
        },
{
    if input == Input::Restart && !g.alive {
        lemma_reset_wf(g, rx, ry);
    }
}

/// After one step of an alive, well-formed board, every segment is still on
/// the grid and the head is the old head offset along the direction.
pub proof fn lemma_advance_props(g: GameView)
    requires
        g.wf(),
        g.alive,
    ensures
        ({
            let a = g.advanced();
            &&& a.snake.len() == g.snake.len()
            &&& a.head() == spec_new_head(g.head(), g.movement)
            &&& forall|i: int|
                0 <= i < a.snake.len() ==> (#[trigger] a.snake[i]).x < g.width && a.snake[i].y
                    < g.height
        }),
{
    let a = g.advanced();
    assert forall|i: int|
        0 <= i < a.snake.len() implies (#[trigger] a.snake[i]).x < g.width && a.snake[i].y
        < g.height by {
        if g.movement is Some && i < a.snake.len() - 1 {
            assert(a.snake[i] == g.snake[i + 1]);
        }
    }
}

/// A grid cell that carries no wall entity is strictly inside the border.
pub proof fn lemma_no_wall_is_interior(g: GameView, x: u32, y: u32)
    requires
        5 <= g.width,
        5 <= g.height,
        g.entities_wf(),
        (x as int) < g.width,
        (y as int) < g.height,
        !g.wall_entity_at(x, y),
    ensures
        interior_coord(g.width, g.height, x as int, y as int),
{
    if wall_coord(g.width, g.height, x as int, y as int) {
        let i = choose|i: int|
            0 <= i < g.entities.len() - 1 && (#[trigger] g.entities[i]).x as int == x as int
                && g.entities[i].y as int == y as int;
        assert(g.entities[i].x == x && g.entities[i].y == y);
        assert(false);
    }
}

/// Every tick preserves well-formedness, whatever the input and whatever
/// in-margin coordinates the food draws produced.
pub proof fn lemma_update_preserves_wf(
    g: GameView,
    input: Input,
    rx: u32,
    ry: u32,
    ex: u32,
    ey: u32,
)
    requires
        g.wf(),
        margin_coord(g.width, g.height, rx as int, ry as int),
        margin_coord(g.width, g.height, ex as int, ey as int),
    ensures
        spec_update(g, input, rx, ry, ex, ey).wf(),
{
    lemma_handle_input_wf(g, input, rx, ry);
    let h = spec_handle_input(g, input, rx, ry);
    if h.alive {
        lemma_advance_props(h);
        let a = h.advanced();
        let hx = a.head().x;
        let hy = a.head().y;
        if a.wall_entity_at(hx, hy) {
            assert(GameView { alive: false, ..a }.wf());
        } else {
            lemma_no_wall_is_interior(a, hx, hy);
            let ate = a.food().x == hx && a.food().y == hy;
            let b = if ate {
                a.with_food_at(ex, ey)
            } else {
                a
            };
            assert(b.snake == a.snake);
            if ate {
                assert forall|x: int, y: int|
                    #[trigger] wall_coord(b.width, b.height, x, y) implies exists|i: int|
                    0 <= i < b.entities.len() - 1 && (#[trigger] b.entities[i]).x as int == x
                        && b.entities[i].y as int == y by {
                    let i = choose|i: int|
                        0 <= i < a.entities.len() - 1 && (#[trigger] a.entities[i]).x as int == x
                            && a.entities[i].y as int == y;
                    assert(b.entities[i] == a.entities[i]);
                }
                assert(b.entities_wf());
            }
            if b.body_at(b.head().x, b.head().y) {
                assert(GameView { alive: false, ..b }.wf());
            } else if ate {
                let grown = GameView { snake: seq![h.snake[0]] + b.snake, ..b };
                assert(grown.head() == a.head());
                assert forall|i: int|
                    0 <= i < grown.snake.len() implies (#[trigger] grown.snake[i]).x < grown.width
                    && grown.snake[i].y < grown.height by {
                    if i > 0 {
                        assert(grown.snake[i] == b.snake[i - 1]);
                    }
                }
                assert(grown.wf());
            }
        }
    }
}

impl Game {
    /// Move the snake by one cell in the current direction, or hold position
    /// if no direction has been chosen yet. A pure geometric shift: no bounds
    /// or collision checking.
    pub fn step_forward(&mut self)
        requires
            old(self)@.can_advance(),
        ensures
            final(self)@ == old(self)@.advanced(),
    {
        let head: SnakePart = self.snake[self.snake.len() - 1];
        let tail: SnakePart = self.snake.pop_front().unwrap();

        match self.movement {
            Option::Some(Movement::Up) => self.snake.push_back(
                SnakePart { x: head.x, y: head.y - 1 },
            ),
            Option::Some(Movement::Down) => self.snake.push_back(
                SnakePart { x: head.x, y: head.y + 1 },
            ),
            Option::Some(Movement::Left) => self.snake.push_back(
                SnakePart { x: head.x - 1, y: head.y },
            ),
            Option::Some(Movement::Right) => self.snake.push_back(
                SnakePart { x: head.x + 1, y: head.y },
            ),
            Option::None => self.snake.push_front(tail),
        }

        proof {
            assert(self.snake@ =~= spec_advance_snake(old(self).snake@, old(self).movement));
            assert(self@ =~~= old(self)@.advanced());
        }
    }

    /// Establish a fresh playable board with the food at `(fx, fy)`: clears
    /// entities and snake, rebuilds the wall border, and places the snake at
    /// the grid center.
    pub fn init_field_with(&mut self, fx: u32, fy: u32)
        requires
            old(self).width >= 5,
            old(self).height >= 5,
            margin_coord(old(self)@.width, old(self)@.height, fx as int, fy as int),
        ensures
            final(self)@ == spec_reset(old(self)@, fx, fy),
            final(self)@.wf(),
    {
        self.is_alive = true;
        self.movement = None;
        self.entities.clear();
        self.snake.clear();

        let ghost w = self.width as int;
        let ghost h = self.height as int;

        let mut x: u32 = 0;
        while x < self.width
            invariant
                x <= self.width,
                self.width == old(self).width,
                self.height == old(self).height,
                self.is_running == old(self).is_running,
                self.is_alive,
                self.movement is None,
                self.snake@ == Seq::<SnakePart>::empty(),
                self.entities@ =~= top_row(w).take(x as int),
                w == self.width as int,
            decreases self.width - x,
        {
            self.entities.push(Entity { entity_type: EntityType::Wall, x, y: 0 });
            x = x + 1;
            proof {
                assert(self.entities@ =~= top_row(w).take(x as int));
            }
        }
        proof {
            assert(self.entities@ =~= top_row(w));
        }

        let mut x: u32 = 0;
        while x < self.width
            invariant
                x <= self.width,
                self.width == old(self).width,
                self.height == old(self).height,
                self.is_running == old(self).is_running,
                self.is_alive,
                self.movement is None,
                self.snake@ == Seq::<SnakePart>::empty(),
                self.height >= 5,
                self.entities@ =~= top_row(w) + bottom_row(w, h).take(x as int),
                w == self.width as int,
                h == self.height as int,
            decreases self.width - x,
        {
            self.entities.push(Entity { entity_type: EntityType::Wall, x, y: self.height - 1 });
            x = x + 1;
            proof {
                assert(self.entities@ =~= top_row(w) + bottom_row(w, h).take(x as int));
            }
        }

        let mut y: u32 = 1;
        while y < self.height - 1
            invariant
                1 <= y <= self.height - 1,
                self.width == old(self).width,
                self.height == old(self).height,
                self.is_running == old(self).is_running,
                self.is_alive,
                self.movement is None,
                self.snake@ == Seq::<SnakePart>::empty(),
                self.height >= 5,
                self.entities@ =~= top_row(w) + bottom_row(w, h) + left_column(h).take(y - 1),
                w == self.width as int,
                h == self.height as int,
            decreases self.height - y,
        {
            self.entities.push(Entity { entity_type: EntityType::Wall, x: 0, y });
            y = y + 1;
            proof {
                assert(self.entities@ =~= top_row(w) + bottom_row(w, h) + left_column(h).take(
                    y - 1,
                ));
            }
        }

        let mut y: u32 = 1;
        while y < self.height - 1
            invariant
                1 <= y <= self.height - 1,
                self.width == old(self).width,
                self.height == old(self).height,
                self.is_running == old(self).is_running,
                self.is_alive,
                self.movement is None,
                self.snake@ == Seq::<SnakePart>::empty(),
                self.width >= 5,
                self.height >= 5,
                self.entities@ =~= top_row(w) + bottom_row(w, h) + left_column(h) + right_column(
                    w,
                    h,
                ).take(y - 1),
                w == self.width as int,
                h == self.height as int,
            decreases self.height - y,
        {
            self.entities.push(Entity { entity_type: EntityType::Wall, x: self.width - 1, y });
            y = y + 1;
            proof {
                assert(self.entities@ =~= top_row(w) + bottom_row(w, h) + left_column(h)
                    + right_column(w, h).take(y - 1));
            }
        }
        proof {
            assert(self.entities@ =~= border_walls(w, h));
        }

        self.entities.push(Entity { entity_type: EntityType::Food, x: fx, y: fy });

        self.snake.push_back(SnakePart { x: self.width / 2, y: self.height / 2 });

        proof {
            assert(self@ =~~= spec_reset(old(self)@, fx, fy));
            lemma_reset_wf(old(self)@, fx, fy);
        }
    }

    /// True when some wall entity sits at `(x, y)`.
    pub fn wall_hit(&self, x: u32, y: u32) -> (r: bool)
        requires
            self@.entities.len() >= 1,
        ensures
            r == self@.wall_entity_at(x, y),
    {
        let n = self.entities.len();
        let mut i: usize = 0;
        while i < n - 1
            invariant
                n == self.entities.len(),
                n >= 1,
                i <= n - 1,
                forall|k: int|
                    0 <= k < i ==> !((#[trigger] self.entities@[k]).x == x
                        && self.entities@[k].y == y),
            decreases n - 1 - i,
        {
            if self.entities[i].x == x && self.entities[i].y == y {
                return true;
            }
            i = i + 1;
        }
        false
    }

    /// True when some body segment other than the head sits at `(x, y)`.
    pub fn body_hit(&self, x: u32, y: u32) -> (r: bool)
        requires
            self@.snake.len() >= 1,
        ensures
            r == self@.body_at(x, y),
    {
        let len = self.snake.len();
        let mut i: usize = 0;
        while i < len - 1
            invariant
                len == self.snake.len(),
                len >= 1,
                i <= len - 1,
                forall|k: int|
                    0 <= k < i ==> !((#[trigger] self.snake@[k]).x == x && self.snake@[k].y == y),
            decreases len - 1 - i,
        {
            if self.snake[i].x == x && self.snake[i].y == y {
                proof {
                    assert(self@.snake[i as int].x == x && self@.snake[i as int].y == y);
                }
                return true;
            }
            i = i + 1;
        }
        false
    }

    /// Process one input event and one simulation step. `rx, ry` is the food
    /// coordinate a restart places; `ex, ey` is the coordinate the food
    /// relocates to when eaten.
    pub fn update_with_food(&mut self, input: Input, rx: u32, ry: u32, ex: u32, ey: u32)
        requires
            old(self)@.wf(),
            margin_coord(old(self)@.width, old(self)@.height, rx as int, ry as int),
            margin_coord(old(self)@.width, old(self)@.height, ex as int, ey as int),
        ensures
            final(self)@ == spec_update(old(self)@, input, rx, ry, ex, ey),
            final(self)@.wf(),
    {
        match input {
            Input::Quit => {
                self.is_running = false;
            },
            Input::Restart => {
                if !self.is_alive {
                    self.init_field_with(rx, ry);
                }
            },
            Input::MoveUp => {
                if self.is_alive && !matches!(self.movement, Some(Movement::Down)) {
                    self.movement = Some(Movement::Up);
                }
            },
            Input::MoveLeft => {
                if self.is_alive && !matches!(self.movement, Some(Movement::Right)) {
                    self.movement = Some(Movement::Left);
                }
            },
            Input::MoveDown => {
                if self.is_alive && !matches!(self.movement, Some(Movement::Up)) {
                    self.movement = Some(Movement::Down);
                }
            },
            Input::MoveRight => {
                if self.is_alive && !matches!(self.movement, Some(Movement::Left)) {
                    self.movement = Some(Movement::Right);
                }
            },
            Input::Nothing => {},
        }

        proof {
            assert(self@ =~~= spec_handle_input(old(self)@, input, rx, ry));
            lemma_handle_input_wf(old(self)@, input, rx, ry);
            lemma_update_preserves_wf(old(self)@, input, rx, ry, ex, ey);
        }

        if !self.is_alive {
            return;
        }

        let ghost hv = self@;

        let tail0: SnakePart = self.snake[0];
        self.step_forward();
        let head: SnakePart = self.snake[self.snake.len() - 1];

        proof {
            lemma_advance_props(hv);
            assert(head == hv.advanced().head());
        }

        if self.wall_hit(head.x, head.y) {
            self.is_alive = false;
            proof {
                assert(self@ =~~= spec_update(old(self)@, input, rx, ry, ex, ey));
            }
            return;
        }

        let ghost av = self@;
        let ghost ate = av.food().x == head.x && av.food().y == head.y;

        let mut grow = false;
        let fi = self.entities.len() - 1;
        if self.entities[fi].x == head.x && self.entities[fi].y == head.y {
            self.entities.pop();
            self.entities.push(Entity { entity_type: EntityType::Food, x: ex, y: ey });
            grow = true;
            proof {
                assert(self.entities@ =~= av.with_food_at(ex, ey).entities);
            }
        }

        let ghost bv = self@;
        proof {
            assert(bv =~~= if ate {
                av.with_food_at(ex, ey)
            } else {
                av
            });
        }

        if self.body_hit(head.x, head.y) {
            self.is_alive = false;
            proof {
                assert(self@ =~~= spec_update(old(self)@, input, rx, ry, ex, ey));
            }
            return;
        }

        if grow {
            self.snake.push_front(tail0);
        }

        proof {
            if grow {
                assert(self.snake@ =~= seq![hv.snake[0]] + bv.snake);
            }
            assert(self@ =~~= spec_update(old(self)@, input, rx, ry, ex, ey));
        }
    }
}

/// Relies on `rand::Rng::gen_range` called on `rand::thread_rng()`: the
/// result is a value of the non-empty half-open range `lo..hi`.
#[verifier::external_body]
fn rand_in_range(lo: u32, hi: u32) -> (r: u32)
    requires
        lo < hi,
    ensures
        lo <= r < hi,
{
    rand::Rng::gen_range(&mut rand::thread_rng(), lo..hi)
}

impl Game {
    /// Establish a fresh playable board, drawing the food coordinate from
    /// the process-wide random generator.
    pub fn init_field(&mut self)
        requires
            old(self).width >= 5,
            old(self).height >= 5,
        ensures
            final(self)@.wf(),
            exists|fx: u32, fy: u32|
                margin_coord(old(self)@.width, old(self)@.height, fx as int, fy as int)
                    && final(self)@ == #[trigger] spec_reset(old(self)@, fx, fy),
    {
        let fx = rand_in_range(2, self.width - 2);
        let fy = rand_in_range(2, self.height - 2);
        self.init_field_with(fx, fy);
    }

    /// A fresh game on the default grid with the food at `(fx, fy)`.
    pub fn new_with_food(fx: u32, fy: u32) -> (res: Game)
        requires
            margin_coord(GRID_WIDTH as int, GRID_HEIGHT as int, fx as int, fy as int),
        ensures
            res@ == spec_new(fx, fy),
            res@.wf(),
    {
        let mut res = Game {
            is_running: true,
            is_alive: true,
            width: GRID_WIDTH,
            height: GRID_HEIGHT,
            movement: None,
            entities: Vec::new(),
            snake: VecDeque::new(),
        };
        res.init_field_with(fx, fy);
        res
    }

    /// A fresh game on the default grid, drawing the food coordinate from
    /// the process-wide random generator.
    pub fn new() -> (res: Game)
        ensures
            res@.wf(),
            res@.running,
            res@.width == GRID_WIDTH as int,
            res@.height == GRID_HEIGHT as int,
            exists|fx: u32, fy: u32|
                margin_coord(GRID_WIDTH as int, GRID_HEIGHT as int, fx as int, fy as int) && res@
                    == #[trigger] spec_new(fx, fy),
    {
        let fx = rand_in_range(2, GRID_WIDTH - 2);
        let fy = rand_in_range(2, GRID_HEIGHT - 2);
        Game::new_with_food(fx, fy)
    }

    /// Process one input event and one simulation step, drawing any food
    /// coordinates the tick needs from the process-wide random generator.
    pub fn update(&mut self, input: Input)
        requires
            old(self)@.wf(),
        ensures
            final(self)@.wf(),
            exists|rx: u32, ry: u32, ex: u32, ey: u32|
                margin_coord(old(self)@.width, old(self)@.height, rx as int, ry as int)
                    && margin_coord(old(self)@.width, old(self)@.height, ex as int, ey as int)
                    && final(self)@ == #[trigger] spec_update(old(self)@, input, rx, ry, ex, ey),
    {
        let rx = rand_in_range(2, self.width - 2);
        let ry = rand_in_range(2, self.height - 2);
        let ex = rand_in_range(2, self.width - 2);
        let ey = rand_in_range(2, self.height - 2);
        self.update_with_food(input, rx, ry, ex, ey);
    }
}

} // verus!
