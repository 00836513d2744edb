//! Where the food can go: the cells of the board that the snake leaves free.

use crate::grid::{is_out_of_bounds, out_of_bounds, Position, HEIGHT, WIDTH};
use crate::random::random_below;
use crate::snake::{has_vacancy, vacant, Snake};
use vstd::prelude::*;

verus! {

/// How often a cell for the food is drawn at random before the board is
/// searched cell by cell.
pub const MAX_DRAWS: usize = 65_536;

/// Whether `cell` is a cell of the board that `snake` does not cover.
pub fn is_vacant(snake: &Snake, cell: Position) -> (free: bool)
    ensures
        free == vacant(snake@.cells(), cell),
{
    !is_out_of_bounds(cell) && !snake.occupies(cell)
}

/// Searches the board row by row, each row from the left, for a cell that the
/// snake does not cover.
pub fn scan_for_vacant_cell(snake: &Snake) -> (found: Option<Position>)
    ensures
        found matches Some(cell) ==> vacant(snake@.cells(), cell),
        found is Some <==> has_vacancy(snake@.cells()),
{
    let ghost cells = snake@.cells();
    let mut y: usize = 0;
    while y < HEIGHT
        invariant
            y <= HEIGHT,
            cells == snake@.cells(),
            forall|cell: Position| cell.y < y && cell.x < WIDTH ==> #[trigger] cells.contains(cell),
        decreases HEIGHT - y,
    {
        let mut x: usize = 0;
        while x < WIDTH
            invariant
                x <= WIDTH,
                y < HEIGHT,
                cells == snake@.cells(),
                forall|cell: Position|
                    (cell.y < y && cell.x < WIDTH) || (cell.y == y && cell.x < x)
                        ==> #[trigger] cells.contains(cell),
            decreases WIDTH - x,
        {
            let cell = Position::new(x, y);
            if is_vacant(snake, cell) {
                return Some(cell);
            }
            assert(cells.contains(cell));
            x += 1;
        }
        y += 1;
    }
    assert forall|cell: Position| !#[trigger] vacant(cells, cell) by {
        if !out_of_bounds(cell) {
            assert(cells.contains(cell));
        }
    }
    None
}

/// Chooses a cell for the food: cells of the whole board are drawn at random
/// until one is vacant. After `MAX_DRAWS` covered cells the board is searched
/// instead, so that the choice ends and a full board is found out.
pub fn find_vacant_cell(snake: &Snake) -> (found: Option<Position>)
    ensures
        found matches Some(cell) ==> vacant(snake@.cells(), cell),
        found is Some <==> has_vacancy(snake@.cells()),
{
    let mut rng = rand::thread_rng();
    let mut draws: usize = 0;
    while draws < MAX_DRAWS
        invariant
            draws <= MAX_DRAWS,
        decreases MAX_DRAWS - draws,
    {
        let x: usize = random_below(&mut rng, WIDTH);
        let y: usize = random_below(&mut rng, HEIGHT);
        let cell = Position::new(x, y);
        if is_vacant(snake, cell) {
            return Some(cell);
        }
        draws += 1;
    }
    scan_for_vacant_cell(snake)
}

} // verus!
