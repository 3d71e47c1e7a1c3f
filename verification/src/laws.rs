//! The library's laws: proof functions over the spec-level transition
//! functions that the executable methods are proved to follow exactly.

use vstd::prelude::*;

use crate::game::{
    lemma_reset_wf, margin_coord, opposite, spec_handle_input, spec_new_head, spec_reset,
    spec_update, wall_coord, EntityType, GameView, Input, Movement,
};

verus! {

/// The input event that requests direction `m`.
pub open spec fn dir_input(m: Movement) -> Input {
    match m {
        Movement::Up => Input::MoveUp,
        Movement::Down => Input::MoveDown,
        Movement::Left => Input::MoveLeft,
        Movement::Right => Input::MoveRight,
    }
}

/// While alive, the snake length grows by exactly one on a tick whose new
/// head lands on the pre-tick food cell and whose snake survives the tick;
/// on every other tick the length is unchanged.
pub proof fn lemma_growth_only_on_food(
    g: GameView,
    input: Input,
    rx: u32,
    ry: u32,
    ex: u32,
    ey: u32,
)
    requires
        g.wf(),
        g.alive,
    ensures
        ({
            let h = spec_handle_input(g, input, rx, ry);
            let nh = spec_new_head(g.head(), h.movement);
            let u = spec_update(g, input, rx, ry, ex, ey);
            let ate = nh.x == g.food().x && nh.y == g.food().y;
            u.snake.len() == if u.alive && ate {
                g.snake.len() + 1
            } else {
                g.snake.len()
            }
        }),
{
    let h = spec_handle_input(g, input, rx, ry);
    assert(h.snake == g.snake && h.entities == g.entities && h.alive);
    let a = h.advanced();
    assert(a.snake.len() == g.snake.len());
    assert(a.head() == spec_new_head(g.head(), h.movement));
}

/// One advance moves the head by exactly one unit along the current
/// direction's axis, and moves nothing when no direction is chosen yet.
pub proof fn lemma_advance_offsets(g: GameView)
    requires
        g.can_advance(),
    ensures
        ({
            let a = g.advanced();
            match g.movement {
                Option::None => a.snake == g.snake,
                Option::Some(Movement::Up) => a.head().x == g.head().x && a.head().y as int
                    == g.head().y as int - 1,
                Option::Some(Movement::Down) => a.head().x == g.head().x && a.head().y as int
                    == g.head().y as int + 1,
                Option::Some(Movement::Left) => a.head().x as int == g.head().x as int - 1
                    && a.head().y == g.head().y,
                Option::Some(Movement::Right) => a.head().x as int == g.head().x as int + 1
                    && a.head().y == g.head().y,
            }
        }),
        g.movement is Some ==> g.advanced().snake.len() == g.snake.len(),
{
}

/// Requesting the exact opposite of the current direction never changes it.
pub proof fn lemma_reversal_guard(g: GameView, m: Movement, rx: u32, ry: u32, ex: u32, ey: u32)
    requires
        g.movement == Option::Some(m),
    ensures
        spec_update(g, dir_input(opposite(m)), rx, ry, ex, ey).movement == Option::Some(m),
{
    assert(opposite(opposite(m)) == m);
}

/// Death is terminal: without a restart, a tick changes neither the snake,
/// the entities, the direction, nor the alive flag of a dead game.
pub proof fn lemma_death_is_terminal(
    g: GameView,
    input: Input,
    rx: u32,
    ry: u32,
    ex: u32,
    ey: u32,
)
    requires
        !g.alive,
        input != Input::Restart,
    ensures
        ({
            let u = spec_update(g, input, rx, ry, ex, ey);
            &&& !u.alive
            &&& u.snake == g.snake
            &&& u.entities == g.entities
            &&& u.movement == g.movement
        }),
{
}

/// Restarting a dead game yields a fresh board: alive, no direction, a
/// one-segment snake at the grid center, the food inside the interior
/// margin, and a full wall border. The one draw left out is a food
/// coordinate equal to the grid center, which the snake would eat on the
/// very same tick.
pub proof fn lemma_restart_resets(g: GameView, rx: u32, ry: u32, ex: u32, ey: u32)
    requires
        g.wf(),
        !g.alive,
        margin_coord(g.width, g.height, rx as int, ry as int),
        margin_coord(g.width, g.height, ex as int, ey as int),
        !(rx as int == g.width / 2 && ry as int == g.height / 2),
    ensures
        spec_update(g, Input::Restart, rx, ry, ex, ey) == spec_reset(g, rx, ry),
        ({
            let u = spec_update(g, Input::Restart, rx, ry, ex, ey);
            &&& u.alive
            &&& u.movement is None
            &&& u.snake.len() == 1
            &&& u.head().x as int == g.width / 2
            &&& u.head().y as int == g.height / 2
            &&& u.food().entity_type == EntityType::Food
            &&& u.food().x == rx && u.food().y == ry
            &&& u.wf()
            &&& forall|x: int, y: int|
                #[trigger] wall_coord(g.width, g.height, x, y) ==> exists|i: int|
                    0 <= i < u.entities.len() - 1 && (#[trigger] u.entities[i]).x as int == x
                        && u.entities[i].y as int == y
        }),
{
    lemma_reset_wf(g, rx, ry);
    let r = spec_reset(g, rx, ry);
    let a = r.advanced();
    assert(a =~~= r);
    if a.wall_entity_at(a.head().x, a.head().y) {
        let i = choose|i: int|
            0 <= i < a.entities.len() - 1 && (#[trigger] a.entities[i]).x == a.head().x
                && a.entities[i].y == a.head().y;
        assert(wall_coord(r.width, r.height, a.entities[i].x as int, a.entities[i].y as int));
        assert(false);
    }
    assert(!(a.food().x == a.head().x && a.food().y == a.head().y));
    assert(!a.body_at(a.head().x, a.head().y));
    assert(spec_update(g, Input::Restart, rx, ry, ex, ey) == r);
}

/// The food of a well-formed state lies inside the interior margin, on no
/// wall coordinate, and no wall entity shares its cell.
pub proof fn lemma_food_in_margin(g: GameView)
    requires
        g.wf(),
    ensures
        margin_coord(g.width, g.height, g.food().x as int, g.food().y as int),
        !wall_coord(g.width, g.height, g.food().x as int, g.food().y as int),
        !g.wall_entity_at(g.food().x, g.food().y),
{
    if g.wall_entity_at(g.food().x, g.food().y) {
        let i = choose|i: int|
            0 <= i < g.entities.len() - 1 && (#[trigger] g.entities[i]).x == g.food().x
                && g.entities[i].y == g.food().y;
        assert(wall_coord(g.width, g.height, g.entities[i].x as int, g.entities[i].y as int));
        assert(false);
    }
}

/// A tick that moves the new head onto any body segment other than the head
/// leaves the snake dead, whether or not it also ate.
pub proof fn lemma_self_collision_kills(
    g: GameView,
    input: Input,
    rx: u32,
    ry: u32,
    ex: u32,
    ey: u32,
)
    requires
        g.wf(),
        g.alive,
        g.snake.len() >= 2,
        ({
            let h = spec_handle_input(g, input, rx, ry);
            let a = h.advanced();
            a.body_at(a.head().x, a.head().y)
        }),
    ensures
        !spec_update(g, input, rx, ry, ex, ey).alive,
{
    let h = spec_handle_input(g, input, rx, ry);
    let a = h.advanced();
    let ate = a.food().x == a.head().x && a.food().y == a.head().y;
    if !a.wall_entity_at(a.head().x, a.head().y) && ate {
        let b = a.with_food_at(ex, ey);
        assert(b.snake == a.snake);
        let i = choose|i: int|
            0 <= i < a.snake.len() - 1 && (#[trigger] a.snake[i]).x == a.head().x && a.snake[i].y
                == a.head().y;
        assert(b.snake[i].x == b.head().x && b.snake[i].y == b.head().y);
        assert(b.body_at(b.head().x, b.head().y));
    }
}

/// A tick that moves the head onto a wall cell kills the snake and changes
/// nothing else: the entities stay as they were and the body keeps the shape
/// the advance gave it.
pub proof fn lemma_wall_death(g: GameView, input: Input, rx: u32, ry: u32, ex: u32, ey: u32)
    requires
        g.wf(),
        g.alive,
        ({
            let h = spec_handle_input(g, input, rx, ry);
            let a = h.advanced();
            a.wall_entity_at(a.head().x, a.head().y)
        }),
    ensures
        ({
            let h = spec_handle_input(g, input, rx, ry);
            let a = h.advanced();
            let u = spec_update(g, input, rx, ry, ex, ey);
            &&& !u.alive
            &&& u.entities == g.entities
            &&& u.snake == a.snake
            &&& u.movement == h.movement
        }),
{
}

} // verus!
