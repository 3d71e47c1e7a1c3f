//! The read-only snapshot of a board: a grid of printable symbols plus the
//! score and the alive flag. Rendering is a pure function of the state.

use vstd::prelude::*;

use crate::game::{Game, GameView, Movement};

verus! {

/// The symbol the head is drawn with for each direction of travel.
pub open spec fn head_char(m: Option<Movement>) -> char {
    match m {
        Option::Some(Movement::Up) => '^',
        Option::Some(Movement::Down) => 'v',
        Option::Some(Movement::Left) => '<',
        Option::Some(Movement::Right) => '>',
        Option::None => '0',
    }
}

impl GameView {
    /// The food sits at `(x, y)`.
    pub open spec fn food_at(self, x: u32, y: u32) -> bool {
        self.food().x == x && self.food().y == y
    }

    /// The symbol drawn at cell `(x, y)`: the head wins over body segments,
    /// which win over entities; an empty cell is a dot.
    pub open spec fn cell_char(self, x: u32, y: u32) -> char {
        if self.head().x == x && self.head().y == y {
            head_char(self.movement)
        } else if self.body_at(x, y) {
            '0'
        } else if self.food_at(x, y) {
            '@'
        } else if self.wall_entity_at(x, y) {
            '#'
        } else {
            '.'
        }
    }
}

/// A rendered snapshot of the game: the grid of symbols, the score, and
/// whether the player is alive.
pub struct Frame {
    pub cells: Vec<Vec<char>>,
    pub score: usize,
    pub alive: bool,
}

impl Game {
    /// The symbol for one grid cell.
    fn cell_at(&self, x: u32, y: u32) -> (c: char)
        requires
            self@.entities.len() >= 1,
            self@.snake.len() >= 1,
        ensures
            c == self@.cell_char(x, y),
    {
        let head = self.snake[self.snake.len() - 1];
        if head.x == x && head.y == y {
            match self.movement {
                Some(Movement::Up) => '^',
                Some(Movement::Down) => 'v',
                Some(Movement::Left) => '<',
                Some(Movement::Right) => '>',
                None => '0',
            }
        } else if self.body_hit(x, y) {
            '0'
        } else {
            let fi = self.entities.len() - 1;
            if self.entities[fi].x == x && self.entities[fi].y == y {
                '@'
            } else if self.wall_hit(x, y) {
                '#'
            } else {
                '.'
            }
        }
    }

    /// Produce a read-only snapshot of the board: a `height` by `width` grid
    /// of symbols, the score (snake length minus one), and the alive flag.
    /// Nothing in the game state is mutated.
    pub fn render(&self) -> (fr: Frame)
        requires
            self@.wf(),
        ensures
            fr.cells@.len() == self@.height,
            forall|y: int|
                0 <= y < self@.height ==> (#[trigger] fr.cells@[y])@.len() == self@.width,
            forall|y: int, x: int|
                0 <= y < self@.height && 0 <= x < self@.width ==> (#[trigger] fr.cells@[y]@[x])
                    == self@.cell_char(x as u32, y as u32),
            fr.score == self@.snake.len() - 1,
            fr.alive == self@.alive,
    {
        let mut cells: Vec<Vec<char>> = Vec::new();
        let mut y: u32 = 0;
        while y < self.height
            invariant
                y <= self.height,
                self@.wf(),
                cells@.len() == y,
                forall|r: int| 0 <= r < y ==> (#[trigger] cells@[r])@.len() == self@.width,
                forall|r: int, c: int|
                    0 <= r < y && 0 <= c < self@.width ==> (#[trigger] cells@[r]@[c])
                        == self@.cell_char(c as u32, r as u32),
            decreases self.height - y,
        {
            let mut row: Vec<char> = Vec::new();
            let mut x: u32 = 0;
            while x < self.width
                invariant
                    x <= self.width,
                    self@.wf(),
                    row@.len() == x,
                    forall|c: int|
                        0 <= c < x ==> (#[trigger] row@[c]) == self@.cell_char(c as u32, y as u32),
                decreases self.width - x,
            {
                let ch = self.cell_at(x, y);
                row.push(ch);
                x = x + 1;
            }
            cells.push(row);
            y = y + 1;
        }
        Frame { cells, score: self.snake.len() - 1, alive: self.is_alive }
    }
}

} // verus!
