//! What holds of every game, proved from the contracts of the functions that
//! change it.

use crate::game::{ticked, GameView};
use crate::grid::{out_of_bounds, wrap_coordinate, Offset, Position, HEIGHT, WIDTH};
use crate::snake::{
    adjacent, crowded, has_vacancy, lemma_crowded, lemma_refused_prefix_found, refused, steered,
    unheard,
};
use vstd::prelude::*;

verus! {

/// A coordinate after a step is the exact sum modulo the size of the range of
/// `usize`.
pub proof fn law_wrap_is_modulo(v: usize, d: isize)
    ensures
        wrap_coordinate(v, d) == (v + d) % (usize::MAX + 1),
{
    let range: int = usize::MAX + 1;
    let sum: int = v + d;
    if sum > usize::MAX {
        vstd::arithmetic::div_mod::lemma_fundamental_div_mod_converse(sum, range, 1, sum - range);
    } else if sum < 0 {
        vstd::arithmetic::div_mod::lemma_fundamental_div_mod_converse(sum, range, -1, sum + range);
    } else {
        vstd::arithmetic::div_mod::lemma_small_mod(sum as nat, range as nat);
    }
}

/// A step in one of the four directions from a cell of the board leaves the
/// board exactly where the exact sum of a coordinate and its step is below
/// zero or past the last column or row: the bounds test on wrapped coordinates
/// is the test on signed ones. Where the step stays on the board, the new
/// coordinates are the exact sums.
pub proof fn law_step_from_board(position: Position, step: Offset)
    requires
        !out_of_bounds(position),
        step.is_direction(),
    ensures
        out_of_bounds(position.stepped(step)) <==> (position.x + step.x < 0 || position.x + step.x
            >= WIDTH || position.y + step.y < 0 || position.y + step.y >= HEIGHT),
        !out_of_bounds(position.stepped(step)) ==> position.stepped(step).x == position.x + step.x
            && position.stepped(step).y == position.y + step.y,
{
}

/// A step in one of the four directions changes the cell, and the opposite
/// step, which is a direction too, leads back.
pub proof fn law_step_and_back(position: Position, step: Offset)
    requires
        step.is_direction(),
    ensures
        position.stepped(step) != position,
        step.reversed().is_direction(),
        step.reversed() != step,
        step.reversed().reversed() == step,
        position.stepped(step).stepped(step.reversed()) == position,
{
}

/// On a tick without food under the head the snake keeps its length: every
/// segment takes the cell of the one ahead of it and the head takes the cell it
/// faces. The cells covered afterwards are those of the old body without its
/// tail segment, and the head's new cell. The food stays where it is.
pub proof fn law_crawl(pre: GameView, post: GameView, first: u64)
    requires
        pre.wf(),
        ticked(pre, post, first),
        !pre.eats(),
    ensures
        post.cells().len() == pre.cells().len(),
        post.cells() == pre.cells().skip(1).push(pre.target()),
        post.cells().to_set() == pre.cells().skip(1).to_set().insert(pre.target()),
        post.food == pre.food,
{
    assert(post.cells() =~= pre.cells().skip(1).push(pre.target()));
    pre.cells().skip(1).lemma_push_to_set_commute(pre.target());
}

/// On a tick that takes the head onto the food the snake grows by exactly one
/// segment, the new head, and no other segment moves. The food that is there
/// afterwards lies on a cell of the board that the snake does not cover, and
/// there is food afterwards unless the snake leaves no cell of the board free.
pub proof fn law_growth(pre: GameView, post: GameView, first: u64)
    requires
        pre.wf(),
        ticked(pre, post, first),
        pre.eats(),
    ensures
        post.cells().len() == pre.cells().len() + 1,
        post.cells() == pre.cells().push(pre.target()),
        post.food matches Some(food) ==> !out_of_bounds(food.position) && !post.cells().contains(
            food.position,
        ),
        post.food is Some <==> has_vacancy(post.cells()),
{
    assert(post.cells() =~= pre.cells().push(pre.target()));
}

/// A snake that is asked only to go on as before or to turn back keeps its
/// facing, and none of those requests is left for a later tick.
pub proof fn law_refusals_dropped(facing: Offset, queue: Seq<Offset>)
    requires
        forall|i: int| 0 <= i < queue.len() ==> refused(facing, #[trigger] queue[i]),
    ensures
        steered(facing, queue) == facing,
        unheard(facing, queue) == Seq::<Offset>::empty(),
{
    lemma_refused_prefix_found(facing, queue, queue.len());
}

/// A snake whose oldest request is a turn to the side takes it on the next
/// tick; the requests behind it wait.
pub proof fn law_turn_taken(facing: Offset, queue: Seq<Offset>)
    requires
        queue.len() > 0,
        !refused(facing, queue[0]),
    ensures
        steered(facing, queue) == queue[0],
        unheard(facing, queue) == queue.skip(1),
{
}

/// The snake is dead after a tick exactly where it was dead before, or its head
/// has left the board, or the head has entered a cell of its own body: any of
/// its cells when it grows, any but the cell of the tail, which moves away,
/// when it crawls.
pub proof fn law_death(pre: GameView, post: GameView, first: u64)
    requires
        pre.wf(),
        ticked(pre, post, first),
    ensures
        post.dead <==> pre.dead || out_of_bounds(pre.target()) || exists|i: int|
            (if pre.eats() {
                0
            } else {
                1int
            }) <= i < pre.cells().len() && #[trigger] pre.cells()[i] == pre.target(),
{
    let target = pre.target();
    let before = pre.cells();
    let after = post.cells();
    let from: int = if pre.eats() {
        0
    } else {
        1
    };
    lemma_crowded(after, target);
    assert(after.len() == before.len() + 1 - from);
    assert(after[after.len() - 1] == target);
    assert forall|k: int| 0 <= k < after.len() - 1 implies after[k] == before[k + from] by {}
    if crowded(after, target) {
        let (i, j) = choose|i: int, j: int|
            0 <= i < j < after.len() && #[trigger] after[i] == target && #[trigger] after[j]
                == target;
        assert(before[i + from] == target);
    }
    if exists|i: int| from <= i < before.len() && #[trigger] before[i] == target {
        let i = choose|i: int| from <= i < before.len() && #[trigger] before[i] == target;
        assert(after[i - from] == target && after[after.len() - 1] == target);
    }
}

/// A snake whose head enters a cell that one of its segments other than the
/// tail lies on is dead after the tick. Where it grows on that tick, the cell
/// of the tail is deadly as well.
pub proof fn law_self_collision(pre: GameView, post: GameView, first: u64, i: int)
    requires
        pre.wf(),
        ticked(pre, post, first),
        0 <= i < pre.cells().len(),
        pre.cells()[i] == pre.target(),
        i > 0 || pre.eats(),
    ensures
        post.dead,
{
    law_death(pre, post, first);
}

/// A snake whose head enters a cell with a coordinate at or past the board's
/// width or height is dead after the tick.
pub proof fn law_wall(pre: GameView, post: GameView, first: u64)
    requires
        ticked(pre, post, first),
        pre.target().x >= WIDTH || pre.target().y >= HEIGHT,
    ensures
        post.dead,
{
}

/// A game as it starts, and as it starts again, is well formed: five segments
/// in the start row from the fifth column on, the head last, alive, with
/// nothing asked and food off the snake.
pub proof fn law_fresh(game: GameView, first: u64)
    requires
        game.fresh(first),
        first + 6 <= u64::MAX,
    ensures
        game.wf(),
        game.issued_below((first + 6) as u64),
        !game.dead,
        game.queue.len() == 0,
        game.cells() == seq![
            Position { x: 5, y: 5 },
            Position { x: 6, y: 5 },
            Position { x: 7, y: 5 },
            Position { x: 8, y: 5 },
            Position { x: 9, y: 5 },
        ],
        game.food matches Some(food) && !game.cells().contains(food.position),
{
    let cells = game.cells();
    assert(cells =~= seq![
        Position { x: 5, y: 5 },
        Position { x: 6, y: 5 },
        Position { x: 7, y: 5 },
        Position { x: 8, y: 5 },
        Position { x: 9, y: 5 },
    ]);
    assert forall|i: int| 0 <= i < cells.len() - 1 implies adjacent(
        #[trigger] cells[i],
        cells[i + 1],
    ) by {
        assert(cells[i + 1] == cells[i].stepped(Offset::right()));
    }
}

} // verus!
