//! The snake: its segments from tail to head, and the way it turns, crawls and
//! grows.

use crate::grid::{out_of_bounds, Offset, Position};
use crate::render::{Command, SnakeNode};
use std::collections::VecDeque;
use vstd::prelude::*;

verus! {

/// The cells that the segments of `body` lie on, in the same order.
pub open spec fn positions(body: Seq<SnakeNode>) -> Seq<Position> {
    body.map_values(|node: SnakeNode| node.position)
}

/// Whether a snake that faces `facing` ignores the request to face `request`:
/// it already goes that way, or it would turn back on itself.
pub open spec fn refused(facing: Offset, request: Offset) -> bool {
    request == facing || request == facing.reversed()
}

/// How many requests at the front of `queue` a snake facing `facing` ignores
/// before it meets one that it follows, or the end.
pub open spec fn refused_prefix(facing: Offset, queue: Seq<Offset>) -> nat
    decreases queue.len(),
{
    if queue.len() == 0 || !refused(facing, queue[0]) {
        0
    } else {
        1 + refused_prefix(facing, queue.skip(1))
    }
}

/// The way the snake faces once it has heard `queue`: the first request that it
/// does not refuse, or `facing` where it refuses them all.
pub open spec fn steered(facing: Offset, queue: Seq<Offset>) -> Offset {
    let n = refused_prefix(facing, queue);
    if n < queue.len() {
        queue[n as int]
    } else {
        facing
    }
}

/// The requests that wait for a later tick: those behind the one that was
/// followed.
pub open spec fn unheard(facing: Offset, queue: Seq<Offset>) -> Seq<Offset> {
    let n = refused_prefix(facing, queue);
    if n < queue.len() {
        queue.skip(n as int + 1)
    } else {
        Seq::empty()
    }
}

/// The body after one step to `target` without growth: every segment takes the
/// cell of the one ahead of it, and the head takes `target`.
pub open spec fn crawled(body: Seq<SnakeNode>, target: Position) -> Seq<SnakeNode> {
    Seq::new(
        body.len(),
        |i: int|
            SnakeNode {
                entity: body[i].entity,
                position: if i + 1 < body.len() {
                    body[i + 1].position
                } else {
                    target
                },
            },
    )
}

/// The requests that move every segment of `body` to its cell, the head's
/// first.
pub open spec fn moves_from_head(body: Seq<SnakeNode>) -> Seq<Command> {
    Seq::new(
        body.len(),
        |k: int|
            Command::Move {
                entity: body[body.len() - 1 - k].entity,
                position: body[body.len() - 1 - k].position,
            },
    )
}

/// Whether `to` is the cell next to `from` in one of the four directions.
pub open spec fn adjacent(from: Position, to: Position) -> bool {
    exists|step: Offset| step.is_direction() && to == #[trigger] from.stepped(step)
}

/// Whether each of `cells` but the first is next to the one before it.
pub open spec fn connected(cells: Seq<Position>) -> bool {
    forall|i: int| 0 <= i < cells.len() - 1 ==> adjacent(#[trigger] cells[i], cells[i + 1])
}

/// Whether more than one of `cells` is `cell`.
pub open spec fn crowded(cells: Seq<Position>, cell: Position) -> bool {
    cells.to_multiset().count(cell) > 1
}

/// Whether `cell` is a cell of the board that none of `cells` covers.
pub open spec fn vacant(cells: Seq<Position>, cell: Position) -> bool {
    !out_of_bounds(cell) && !cells.contains(cell)
}

/// Whether the board has a cell that none of `cells` covers.
pub open spec fn has_vacancy(cells: Seq<Position>) -> bool {
    exists|cell: Position| #[trigger] vacant(cells, cell)
}

/// `refused_prefix` is the index of the first request that is not refused, or
/// the length of the queue.
pub proof fn lemma_refused_prefix(facing: Offset, queue: Seq<Offset>)
    ensures
        refused_prefix(facing, queue) <= queue.len(),
        forall|i: int|
            0 <= i < refused_prefix(facing, queue) ==> refused(facing, #[trigger] queue[i]),
        refused_prefix(facing, queue) < queue.len() ==> !refused(
            facing,
            queue[refused_prefix(facing, queue) as int],
        ),
    decreases queue.len(),
{
    if queue.len() == 0 || !refused(facing, queue[0]) {
    } else {
        let rest = queue.skip(1);
        lemma_refused_prefix(facing, rest);
        let n = refused_prefix(facing, rest);
        assert forall|i: int| 0 <= i < n + 1 implies refused(facing, #[trigger] queue[i]) by {
            if i > 0 {
                assert(queue[i] == rest[i - 1]);
            }
        }
        if n < rest.len() {
            assert(queue[n as int + 1] == rest[n as int]);
        }
    }
}

/// Where the first `k` requests are refused and the one behind them, if there
/// is one, is not, `refused_prefix` is `k`.
pub proof fn lemma_refused_prefix_found(facing: Offset, queue: Seq<Offset>, k: nat)
    requires
        k <= queue.len(),
        forall|i: int| 0 <= i < k ==> refused(facing, #[trigger] queue[i]),
        k < queue.len() ==> !refused(facing, queue[k as int]),
    ensures
        refused_prefix(facing, queue) == k,
    decreases queue.len(),
{
    if k == 0 {
    } else {
        let rest = queue.skip(1);
        assert(refused(facing, queue[0]));
        assert forall|i: int| 0 <= i < k - 1 implies refused(facing, #[trigger] rest[i]) by {
            assert(rest[i] == queue[i + 1]);
        }
        lemma_refused_prefix_found(facing, rest, (k - 1) as nat);
    }
}

/// A snake that faces a direction and hears only directions faces a direction
/// afterwards, and only directions are left in the queue.
pub proof fn lemma_steered_direction(facing: Offset, queue: Seq<Offset>)
    requires
        facing.is_direction(),
        forall|i: int| 0 <= i < queue.len() ==> (#[trigger] queue[i]).is_direction(),
    ensures
        steered(facing, queue).is_direction(),
        forall|i: int|
            0 <= i < unheard(facing, queue).len() ==> (#[trigger] unheard(
                facing,
                queue,
            )[i]).is_direction(),
{
    lemma_refused_prefix(facing, queue);
    let n = refused_prefix(facing, queue);
    assert forall|i: int| 0 <= i < unheard(facing, queue).len() implies (#[trigger] unheard(
        facing,
        queue,
    )[i]).is_direction() by {
        assert(unheard(facing, queue)[i] == queue[n + 1 + i]);
    }
}

/// A cell is crowded exactly where it is found at two places in `cells`.
pub proof fn lemma_crowded(cells: Seq<Position>, cell: Position)
    ensures
        crowded(cells, cell) <==> exists|i: int, j: int|
            0 <= i < j < cells.len() && #[trigger] cells[i] == cell && #[trigger] cells[j] == cell,
    decreases cells.len(),
{
    cells.to_multiset_ensures();
    if cells.len() == 0 {
    } else {
        let init = cells.drop_last();
        let last = cells.last();
        assert(cells =~= init.push(last));
        init.to_multiset_ensures();
        lemma_crowded(init, cell);
        if crowded(cells, cell) {
            if last == cell {
                assert(init.contains(cell));
                let i = choose|i: int| 0 <= i < init.len() && init[i] == cell;
                assert(cells[i] == cell && cells[cells.len() - 1] == cell);
            } else {
                let (i, j) = choose|i: int, j: int|
                    0 <= i < j < init.len() && #[trigger] init[i] == cell && #[trigger] init[j]
                        == cell;
                assert(cells[i] == cell && cells[j] == cell);
            }
        }
        if exists|i: int, j: int|
            0 <= i < j < cells.len() && #[trigger] cells[i] == cell && #[trigger] cells[j] == cell {
            let (i, j) = choose|i: int, j: int|
                0 <= i < j < cells.len() && #[trigger] cells[i] == cell && #[trigger] cells[j]
                    == cell;
            assert(init[i] == cell);
            if j < init.len() {
                assert(init[j] == cell);
            }
        }
    }
}

/// A connected body stays connected when it crawls to a cell next to its
/// head.
pub proof fn lemma_crawled_connected(body: Seq<SnakeNode>, target: Position)
    requires
        body.len() > 0,
        connected(positions(body)),
        adjacent(body.last().position, target),
    ensures
        connected(positions(crawled(body, target))),
{
    let before = positions(body);
    let after = positions(crawled(body, target));
    assert forall|i: int| 0 <= i < after.len() - 1 implies adjacent(
        #[trigger] after[i],
        after[i + 1],
    ) by {
        assert(after[i] == before[i + 1]);
        if i + 2 < body.len() {
            assert(after[i + 1] == before[i + 2]);
        }
    }
}

/// A connected body stays connected when it gets a new head next to the old
/// one.
pub proof fn lemma_pushed_connected(body: Seq<SnakeNode>, node: SnakeNode)
    requires
        connected(positions(body)),
        body.len() > 0 ==> adjacent(body.last().position, node.position),
    ensures
        connected(positions(body.push(node))),
{
    let before = positions(body);
    let after = positions(body.push(node));
    assert forall|i: int| 0 <= i < after.len() - 1 implies adjacent(
        #[trigger] after[i],
        after[i + 1],
    ) by {
        assert(after[i] == before[i]);
        if i + 1 < body.len() {
            assert(after[i + 1] == before[i + 1]);
        }
    }
}

/// The snake: its segments from tail to head and the way it faces.
#[derive(Debug)]
pub struct Snake {
    nodes: Vec<SnakeNode>,
    facing: Offset,
}

/// What a [`Snake`] is: the segments from tail to head, the head last, and the
/// way it faces.
pub struct SnakeView {
    pub body: Seq<SnakeNode>,
    pub facing: Offset,
}

impl SnakeView {
    /// The cells the snake lies on, from tail to head.
    pub open spec fn cells(self) -> Seq<Position> {
        positions(self.body)
    }

    /// The cell of the head.
    pub open spec fn head(self) -> Position {
        self.body.last().position
    }
}

impl View for Snake {
    type V = SnakeView;

    closed spec fn view(&self) -> SnakeView {
        SnakeView { body: self.nodes@, facing: self.facing }
    }
}

impl Snake {
    /// A snake without segments that faces `facing`.
    pub fn new(facing: Offset) -> (snake: Snake)
        ensures
            snake@.body.len() == 0,
            snake@.facing == facing,
    {
        Snake { nodes: Vec::new(), facing }
    }

    /// The number of segments.
    pub fn len(&self) -> (n: usize)
        ensures
            n == self@.body.len(),
    {
        self.nodes.len()
    }

    /// The way the snake faces.
    pub fn facing(&self) -> (facing: Offset)
        ensures
            facing == self@.facing,
    {
        self.facing
    }

    /// The segments, from tail to head.
    pub fn nodes(&self) -> (nodes: &Vec<SnakeNode>)
        ensures
            nodes@ == self@.body,
    {
        &self.nodes
    }

    /// The cells the snake lies on, from tail to head.
    pub fn cells(&self) -> (cells: Vec<Position>)
        ensures
            cells@ == self@.cells(),
    {
        let mut cells: Vec<Position> = Vec::new();
        let mut i: usize = 0;
        while i < self.nodes.len()
            invariant
                i <= self.nodes.len(),
                cells@ == self@.cells().take(i as int),
            decreases self.nodes.len() - i,
        {
            cells.push(self.nodes[i].position);
            i += 1;
            assert(cells@ =~= self@.cells().take(i as int));
        }
        assert(cells@ =~= self@.cells());
        cells
    }

    /// The cell of the head.
    pub fn head_position(&self) -> (head: Position)
        requires
            self@.body.len() > 0,
        ensures
            head == self@.head(),
    {
        self.nodes[self.nodes.len() - 1].position
    }

    /// Whether a segment lies on `cell`.
    pub fn occupies(&self, cell: Position) -> (found: bool)
        ensures
            found == self@.cells().contains(cell),
    {
        let mut i: usize = 0;
        while i < self.nodes.len()
            invariant
                i <= self.nodes.len(),
                forall|j: int| 0 <= j < i ==> self@.cells()[j] != cell,
            decreases self.nodes.len() - i,
        {
            if self.nodes[i].position == cell {
                assert(self@.cells()[i as int] == cell);
                return true;
            }
            i += 1;
        }
        false
    }

    /// How many segments lie on `cell`.
    pub fn count_at(&self, cell: Position) -> (n: usize)
        ensures
            n == self@.cells().to_multiset().count(cell),
    {
        let ghost cells = self@.cells();
        let mut n: usize = 0;
        let mut i: usize = 0;
        assert(cells.take(0) =~= Seq::<Position>::empty());
        proof {
            cells.take(0).to_multiset_ensures();
        }
        while i < self.nodes.len()
            invariant
                i <= self.nodes.len(),
                cells == self@.cells(),
                n <= i,
                n == cells.take(i as int).to_multiset().count(cell),
            decreases self.nodes.len() - i,
        {
            proof {
                assert(cells.take(i + 1) =~= cells.take(i as int).push(cells[i as int]));
                cells.take(i as int).to_multiset_ensures();
            }
            if self.nodes[i].position == cell {
                n += 1;
            }
            i += 1;
        }
        assert(cells.take(i as int) =~= cells);
        n
    }

    /// Adds `node` in front of the head; it is the head from now on.
    pub fn push(&mut self, node: SnakeNode)
        ensures
            final(self)@.body == old(self)@.body.push(node),
            final(self)@.facing == old(self)@.facing,
    {
        self.nodes.push(node);
    }

    /// Moves the snake one step to `target` without growth, and asks the host
    /// to move every segment's square, the head's first.
    pub fn crawl(&mut self, cmd: &mut Vec<Command>, target: Position)
        ensures
            final(self)@.body == crawled(old(self)@.body, target),
            final(self)@.facing == old(self)@.facing,
            final(cmd)@ == old(cmd)@ + moves_from_head(final(self)@.body),
    {
        let ghost before = self.nodes@;
        let ghost after = crawled(before, target);
        let ghost sent = cmd@;
        let len: usize = self.nodes.len();
        let mut carried: Position = target;
        let mut i: usize = len;
        while i > 0
            invariant
                i <= len,
                len == before.len(),
                self.nodes@.len() == len,
                self.facing == old(self).facing,
                after == crawled(before, target),
                forall|j: int| 0 <= j < i ==> self.nodes@[j] == before[j],
                forall|j: int| i <= j < len ==> self.nodes@[j] == after[j],
                carried == after[i - 1].position || i == 0,
                cmd@.len() == sent.len() + (len - i),
                forall|k: int| 0 <= k < sent.len() ==> cmd@[k] == sent[k],
                forall|k: int|
                    0 <= k < len - i ==> cmd@[sent.len() + k] == moves_from_head(after)[k],
            decreases i,
        {
            i -= 1;
            let node: SnakeNode = self.nodes[i];
            let moved = SnakeNode { entity: node.entity, position: carried };
            self.nodes.set(i, moved);
            cmd.push(Command::Move { entity: moved.entity, position: moved.position });
            carried = node.position;
        }
        assert(self.nodes@ =~= after);
        assert(cmd@ =~= sent + moves_from_head(after));
    }

    /// Hears the requests in `queue` from the front until one is followed: a
    /// request to go on as before or to turn back is dropped, any other becomes
    /// the way the snake faces and ends the hearing.
    pub fn steer(&mut self, queue: &mut VecDeque<Offset>)
        ensures
            final(self)@.body == old(self)@.body,
            final(self)@.facing == steered(old(self)@.facing, old(queue)@),
            final(queue)@ == unheard(old(self)@.facing, old(queue)@),
    {
        let ghost asked = queue@;
        let ghost facing = self.facing;
        loop
            invariant
                asked == old(queue)@,
                facing == old(self)@.facing,
                self.facing == facing,
                self.nodes == old(self).nodes,
                queue@.len() <= asked.len(),
                queue@ == asked.skip(asked.len() - queue@.len()),
                forall|i: int|
                    0 <= i < asked.len() - queue@.len() ==> refused(facing, #[trigger] asked[i]),
            decreases queue@.len(),
        {
            let ghost k: nat = (asked.len() - queue@.len()) as nat;
            match queue.pop_front() {
                None => {
                    proof {
                        lemma_refused_prefix_found(facing, asked, k);
                    }
                    assert(queue@ =~= Seq::<Offset>::empty());
                    return;
                },
                Some(next) => {
                    assert(next == asked[k as int]);
                    assert(queue@ =~= asked.skip(k as int + 1));
                    if next != self.facing && next != core::ops::Neg::neg(self.facing) {
                        proof {
                            lemma_refused_prefix_found(facing, asked, k);
                        }
                        self.facing = next;
                        return;
                    }
                },
            }
        }
    }
}

} // verus!
