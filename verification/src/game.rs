//! The game: the snake, the food, the keys that wait to be heard and the clock,
//! and what one frame does to them.

use crate::food::{find_vacant_cell, is_vacant};
use crate::grid::{is_out_of_bounds, out_of_bounds, Offset, Position};
use crate::keys::{pressed, Keys};
use crate::render::{Command, SnakeFood, SnakeNode, Spawner};
use crate::snake::{
    adjacent, connected, crawled, crowded, has_vacancy, lemma_crawled_connected,
    lemma_pushed_connected, lemma_steered_direction, moves_from_head, steered, unheard, vacant,
    Snake, SnakeView,
};
use crate::timer::{gathered, TickTimer, NANOS_PER_SECOND};
use std::collections::VecDeque;
use vstd::prelude::*;

verus! {

/// Number of segments of a new snake.
pub const START_LENGTH: usize = 5;

/// Column of the tail of a new snake.
pub const START_X: usize = 5;

/// Row of a new snake.
pub const START_Y: usize = 5;

/// The whole state of one game.
#[derive(Debug)]
pub struct Game {
    dead: bool,
    food: Option<SnakeFood>,
    player: Snake,
    tick_timer: TickTimer,
    input_queue: VecDeque<Offset>,
}

/// What a [`Game`] is.
pub struct GameView {
    /// Whether the snake has died. Nothing but a new game ends that.
    pub dead: bool,
    /// The food, if there is any.
    pub food: Option<SnakeFood>,
    /// The snake.
    pub player: SnakeView,
    /// The time the clock has gathered, see [`TickTimer`].
    pub timer: nat,
    /// The turns that were asked for and not yet heard, oldest first.
    pub queue: Seq<Offset>,
}

impl View for Game {
    type V = GameView;

    closed spec fn view(&self) -> GameView {
        GameView {
            dead: self.dead,
            food: self.food,
            player: self.player@,
            timer: self.tick_timer@,
            queue: self.input_queue@,
        }
    }
}

impl GameView {
    /// The cells the snake lies on, from tail to head.
    pub open spec fn cells(self) -> Seq<Position> {
        self.player.cells()
    }

    /// The way the snake faces in the coming tick, once it has heard the queue.
    pub open spec fn heading(self) -> Offset {
        steered(self.player.facing, self.queue)
    }

    /// The cell the head enters in the coming tick.
    pub open spec fn target(self) -> Position {
        self.player.head().stepped(self.heading())
    }

    /// Whether the coming tick takes the head onto the food.
    pub open spec fn eats(self) -> bool {
        self.food matches Some(food) && food.position == self.target()
    }

    /// No handle is used twice among the segments and the food.
    pub open spec fn distinct_entities(self) -> bool {
        &&& forall|i: int, j: int|
            0 <= i < j < self.player.body.len() ==> self.player.body[i].entity
                != self.player.body[j].entity
        &&& self.food matches Some(food) ==> forall|i: int|
            0 <= i < self.player.body.len() ==> (#[trigger] self.player.body[i]).entity
                != food.entity
    }

    /// Every handle among the segments and the food is below `next`.
    pub open spec fn issued_below(self, next: u64) -> bool {
        &&& forall|i: int|
            0 <= i < self.player.body.len() ==> (#[trigger] self.player.body[i]).entity < next
        &&& self.food matches Some(food) ==> food.entity < next
    }

    /// The snake has a head and each segment lies next to the one behind it, it
    /// faces one of the four directions, only directions wait in the queue, and
    /// no handle is used twice.
    pub open spec fn coherent(self) -> bool {
        &&& self.player.body.len() > 0
        &&& connected(self.cells())
        &&& self.player.facing.is_direction()
        &&& forall|i: int| 0 <= i < self.queue.len() ==> (#[trigger] self.queue[i]).is_direction()
        &&& self.distinct_entities()
    }

    /// A coherent game whose food, if there is any, lies on a cell of the board
    /// that the snake does not cover.
    pub open spec fn wf(self) -> bool {
        &&& self.coherent()
        &&& self.food matches Some(food) ==> vacant(self.cells(), food.position)
    }
}

impl Game {
    /// Whether the snake has died.
    pub fn is_dead(&self) -> (dead: bool)
        ensures
            dead == self@.dead,
    {
        self.dead
    }

    /// The food, if there is any.
    pub fn food(&self) -> (food: Option<SnakeFood>)
        ensures
            food == self@.food,
    {
        self.food
    }

    /// The snake.
    pub fn player(&self) -> (player: &Snake)
        ensures
            player@ == self@.player,
    {
        &self.player
    }

    /// The clock.
    pub fn tick_timer(&self) -> (timer: TickTimer)
        ensures
            timer@ == self@.timer,
    {
        self.tick_timer
    }

    /// The turns that were asked for and not yet heard, oldest first.
    pub fn input_queue(&self) -> (queue: &VecDeque<Offset>)
        ensures
            queue@ == self@.queue,
    {
        &self.input_queue
    }

    /// Whether every handle in the game is one that `spawner` has issued.
    pub fn issued_by(&self, spawner: &Spawner) -> (issued: bool)
        ensures
            issued == self@.issued_below(spawner@),
    {
        let next: u64 = spawner.next_entity();
        let nodes = self.player.nodes();
        let mut i: usize = 0;
        while i < nodes.len()
            invariant
                i <= nodes.len(),
                next == spawner@,
                nodes@ == self@.player.body,
                forall|j: int| 0 <= j < i ==> (#[trigger] nodes@[j]).entity < next,
            decreases nodes.len() - i,
        {
            if nodes[i].entity >= next {
                assert(self@.player.body[i as int].entity >= next);
                return false;
            }
            i += 1;
        }
        match self.food {
            Some(food) => food.entity < next,
            None => true,
        }
    }
}

/// The segments of a new snake whose tail has the handle `first`: a row from
/// the start column to the right.
pub open spec fn start_body(first: u64) -> Seq<SnakeNode> {
    Seq::new(
        START_LENGTH as nat,
        |i: int|
            SnakeNode {
                entity: (first + i) as u64,
                position: Position { x: (START_X + i) as usize, y: START_Y },
            },
    )
}

/// The requests to draw every segment of `body`, from tail to head.
pub open spec fn spawns(body: Seq<SnakeNode>) -> Seq<Command> {
    Seq::new(
        body.len(),
        |i: int| Command::Spawn { entity: body[i].entity, position: body[i].position },
    )
}

/// The requests to remove every segment of `body`, from tail to head.
pub open spec fn despawns(body: Seq<SnakeNode>) -> Seq<Command> {
    Seq::new(body.len(), |i: int| Command::Despawn { entity: body[i].entity })
}

/// The request that turns the food `before` into the food `after`: a move
/// where the food stays on screen, a new square where there was none, a
/// removal where none is left.
pub open spec fn food_commands(before: Option<SnakeFood>, after: Option<SnakeFood>) -> Seq<
    Command,
> {
    match (before, after) {
        (Some(b), Some(a)) => seq![Command::Move { entity: b.entity, position: a.position }],
        (None, Some(a)) => seq![Command::Spawn { entity: a.entity, position: a.position }],
        (Some(b), None) => seq![Command::Despawn { entity: b.entity }],
        (None, None) => Seq::empty(),
    }
}

/// The handle of the food `after`: the one it had before, or `next` where there
/// was no food.
pub open spec fn food_entity(before: Option<SnakeFood>, next: u64) -> u64 {
    match before {
        Some(food) => food.entity,
        None => next,
    }
}

/// How many handles it takes to turn the food `before` into the food `after`.
pub open spec fn food_handles(before: Option<SnakeFood>, after: Option<SnakeFood>) -> nat {
    if before is None && after is Some {
        1
    } else {
        0
    }
}

impl GameView {
    /// A game as it starts: the snake in its row, facing right and alive,
    /// nothing asked, the clock at zero, and food on a vacant cell. The handles
    /// are the six from `first` on, the food's last.
    pub open spec fn fresh(self, first: u64) -> bool {
        &&& !self.dead
        &&& self.player.body == start_body(first)
        &&& self.player.facing == Offset::right()
        &&& self.timer == 0
        &&& self.queue == Seq::<Offset>::empty()
        &&& self.food matches Some(food) && food.entity == first + START_LENGTH && vacant(
            self.cells(),
            food.position,
        )
    }
}

/// Puts the food on `position`: the food that is there moves, and where there
/// is none a new one is drawn.
fn put_food(cmd: &mut Vec<Command>, spawner: &mut Spawner, game: &mut Game, position: Position)
    requires
        old(game)@.food is None ==> old(spawner)@ < u64::MAX,
    ensures
        final(game)@ == (GameView {
            food: Some(
                SnakeFood { entity: food_entity(old(game)@.food, old(spawner)@), position },
            ),
            ..old(game)@
        }),
        final(spawner)@ == old(spawner)@ + food_handles(old(game)@.food, final(game)@.food),
        final(cmd)@ == old(cmd)@ + food_commands(old(game)@.food, final(game)@.food),
{
    match game.food {
        Some(food) => {
            cmd.push(Command::Move { entity: food.entity, position });
            game.food = Some(SnakeFood { entity: food.entity, position });
        },
        None => {
            game.food = Some(spawner.new_food(cmd, position));
        },
    }
    assert(cmd@ =~= old(cmd)@ + food_commands(old(game)@.food, game@.food));
}

/// Puts the food on `position` if that is a cell of the board that the snake
/// does not cover, and says whether it did. Otherwise nothing changes.
pub fn place_food(
    cmd: &mut Vec<Command>,
    spawner: &mut Spawner,
    game: &mut Game,
    position: Position,
) -> (placed: bool)
    requires
        old(game)@.coherent(),
        old(game)@.issued_below(old(spawner)@),
        old(game)@.food is None ==> old(spawner)@ < u64::MAX,
    ensures
        placed == vacant(old(game)@.cells(), position),
        placed ==> final(game)@ == (GameView {
            food: Some(
                SnakeFood { entity: food_entity(old(game)@.food, old(spawner)@), position },
            ),
            ..old(game)@
        }),
        !placed ==> final(game)@ == old(game)@,
        final(spawner)@ == old(spawner)@ + food_handles(old(game)@.food, final(game)@.food),
        final(cmd)@ == old(cmd)@ + if placed {
            food_commands(old(game)@.food, final(game)@.food)
        } else {
            Seq::empty()
        },
        final(game)@.coherent(),
        final(game)@.issued_below(final(spawner)@),
        placed || old(game)@.wf() ==> final(game)@.wf(),
{
    if !is_vacant(&game.player, position) {
        assert(cmd@ =~= old(cmd)@ + Seq::<Command>::empty());
        return false;
    }
    put_food(cmd, spawner, game, position);
    true
}

/// Gives the game new food on a vacant cell drawn at random, and says whether
/// it did. The food that is there moves; where there is none a new one is
/// drawn. On a board without a vacant cell the food is taken away.
pub fn new_food(cmd: &mut Vec<Command>, spawner: &mut Spawner, game: &mut Game) -> (placed:
    bool)
    requires
        old(game)@.coherent(),
        old(game)@.issued_below(old(spawner)@),
        old(game)@.food is None ==> old(spawner)@ < u64::MAX,
    ensures
        placed == has_vacancy(old(game)@.cells()),
        placed == final(game)@.food is Some,
        final(game)@ == (GameView { food: final(game)@.food, ..old(game)@ }),
        final(game)@.food matches Some(food) ==> food.entity == food_entity(
            old(game)@.food,
            old(spawner)@,
        ),
        final(spawner)@ == old(spawner)@ + food_handles(old(game)@.food, final(game)@.food),
        final(cmd)@ == old(cmd)@ + food_commands(old(game)@.food, final(game)@.food),
        final(game)@.wf(),
        final(game)@.issued_below(final(spawner)@),
{
    match find_vacant_cell(&game.player) {
        Some(position) => {
            put_food(cmd, spawner, game, position);
            true
        },
        None => {
            if let Some(food) = game.food {
                cmd.push(Command::Despawn { entity: food.entity });
                game.food = None;
            }
            assert(cmd@ =~= old(cmd)@ + food_commands(old(game)@.food, game@.food));
            false
        },
    }
}

/// Asks the host to remove everything the game has on screen: the segments
/// from tail to head, then the food.
pub fn cleanup_game(cmd: &mut Vec<Command>, game: &Game)
    ensures
        final(cmd)@ == old(cmd)@ + despawns(game@.player.body) + food_commands(game@.food, None),
{
    let nodes = game.player.nodes();
    let mut i: usize = 0;
    while i < nodes.len()
        invariant
            i <= nodes.len(),
            nodes@ == game@.player.body,
            cmd@.len() == old(cmd)@.len() + i,
            forall|k: int| 0 <= k < old(cmd)@.len() ==> cmd@[k] == old(cmd)@[k],
            forall|k: int|
                0 <= k < i ==> cmd@[old(cmd)@.len() + k] == despawns(game@.player.body)[k],
        decreases nodes.len() - i,
    {
        cmd.push(Command::Despawn { entity: nodes[i].entity });
        i += 1;
    }
    assert(cmd@ =~= old(cmd)@ + despawns(game@.player.body));
    if let Some(food) = game.food {
        cmd.push(Command::Despawn { entity: food.entity });
    }
    assert(cmd@ =~= old(cmd)@ + despawns(game@.player.body) + food_commands(
        game@.food,
        None,
    ));
}

/// Starts a game: a snake of `START_LENGTH` segments in its row, facing right,
/// and food on a vacant cell drawn at random. The host is asked to draw them.
pub fn setup_game(cmd: &mut Vec<Command>, spawner: &mut Spawner) -> (game: Game)
    requires
        old(spawner)@ + START_LENGTH + 1 <= u64::MAX,
    ensures
        game@.fresh(old(spawner)@),
        game@.wf(),
        game@.issued_below(final(spawner)@),
        final(spawner)@ == old(spawner)@ + START_LENGTH + 1,
        final(cmd)@ == old(cmd)@ + spawns(game@.player.body) + food_commands(None, game@.food),
{
    let ghost first = spawner@;
    let mut game = Game {
        dead: false,
        food: None,
        player: Snake::new(Offset::right()),
        tick_timer: TickTimer::new(),
        input_queue: VecDeque::new(),
    };
    let mut i: usize = 0;
    while i < START_LENGTH
        invariant
            i <= START_LENGTH,
            first == old(spawner)@,
            first + START_LENGTH + 1 <= u64::MAX,
            spawner@ == first + i,
            !game@.dead,
            game@.food is None,
            game@.player.body == start_body(first).take(i as int),
            connected(game@.cells()),
            game@.player.facing == Offset::right(),
            game@.timer == 0,
            game@.queue == Seq::<Offset>::empty(),
            cmd@ == old(cmd)@ + spawns(start_body(first)).take(i as int),
        decreases START_LENGTH - i,
    {
        let node = spawner.new_node(cmd, Position::new(START_X + i, START_Y));
        proof {
            if i > 0 {
                let last = game@.player.body.last().position;
                assert(last == start_body(first)[i - 1].position);
                assert(node.position == last.stepped(Offset::right()));
            }
            lemma_pushed_connected(game@.player.body, node);
        }
        game.player.push(node);
        i += 1;
        assert(game@.player.body =~= start_body(first).take(i as int));
        assert(cmd@ =~= old(cmd)@ + spawns(start_body(first)).take(i as int));
    }
    assert(game@.player.body =~= start_body(first));
    assert(cmd@ =~= old(cmd)@ + spawns(start_body(first)));
    proof {
        let corner = Position { x: 0, y: 0 };
        assert forall|k: int| 0 <= k < game@.cells().len() implies game@.cells()[k] != corner by {}
        assert(vacant(game@.cells(), corner));
    }
    new_food(cmd, spawner, &mut game);
    game
}

/// What one tick makes of the game `pre`, where `next` is the handle that is
/// issued next.
///
/// The snake hears the queue and turns. Where its head then enters the cell of
/// the food it grows by a segment on that cell, with the handle `next`, and
/// the food goes to a vacant cell, or away where the board has none. Otherwise
/// it crawls one cell. It dies where the head leaves the board or shares its
/// cell with another segment.
pub open spec fn ticked(pre: GameView, post: GameView, next: u64) -> bool {
    let target = pre.target();
    &&& post.timer == pre.timer
    &&& post.queue == unheard(pre.player.facing, pre.queue)
    &&& post.player.facing == pre.heading()
    &&& post.dead == (pre.dead || crowded(post.cells(), target) || out_of_bounds(target))
    &&& if pre.eats() {
        &&& post.player.body == pre.player.body.push(SnakeNode { entity: next, position: target })
        &&& post.food is Some <==> has_vacancy(post.cells())
        &&& post.food matches Some(food) ==> food.entity == pre.food->0.entity && vacant(
            post.cells(),
            food.position,
        )
    } else {
        &&& post.player.body == crawled(pre.player.body, target)
        &&& post.food == pre.food
    }
}

/// The requests that the tick from `pre` to `post` sends: for growth the new
/// segment and what becomes of the food, else the move of every segment.
pub open spec fn tick_commands(pre: GameView, post: GameView) -> Seq<Command> {
    if pre.eats() {
        seq![
            Command::Spawn {
                entity: post.player.body.last().entity,
                position: post.player.body.last().position,
            },
        ] + food_commands(pre.food, post.food)
    } else {
        moves_from_head(post.player.body)
    }
}

/// How many handles the tick from `pre` takes.
pub open spec fn tick_handles(pre: GameView) -> nat {
    if pre.eats() {
        1
    } else {
        0
    }
}

/// Advances the game by one tick.
fn step(cmd: &mut Vec<Command>, spawner: &mut Spawner, game: &mut Game)
    requires
        old(game)@.wf(),
        old(game)@.issued_below(old(spawner)@),
        old(spawner)@ < u64::MAX,
    ensures
        ticked(old(game)@, final(game)@, old(spawner)@),
        final(spawner)@ == old(spawner)@ + tick_handles(old(game)@),
        final(cmd)@ == old(cmd)@ + tick_commands(old(game)@, final(game)@),
        final(game)@.wf(),
        final(game)@.issued_below(final(spawner)@),
{
    let ghost pre = game@;
    proof {
        lemma_steered_direction(pre.player.facing, pre.queue);
    }
    game.player.steer(&mut game.input_queue);
    let head_position = game.player.head_position();
    let next_position = head_position + game.player.facing();
    assert(next_position == pre.target());
    assert(adjacent(head_position, next_position));
    proof {
        lemma_crawled_connected(pre.player.body, next_position);
        lemma_pushed_connected(
            pre.player.body,
            SnakeNode { entity: spawner@, position: next_position },
        );
    }
    let eats = match game.food {
        Some(food) => food.position == next_position,
        None => false,
    };
    if eats {
        let node = spawner.new_node(cmd, next_position);
        game.player.push(node);
        new_food(cmd, spawner, game);
        assert(cmd@ =~= old(cmd)@ + tick_commands(pre, game@));
    } else {
        game.player.crawl(cmd, next_position);
        proof {
            let cells = game@.cells();
            if let Some(food) = pre.food {
                assert forall|i: int| 0 <= i < cells.len() implies cells[i] != food.position by {
                    if i + 1 < cells.len() {
                        assert(cells[i] == pre.cells()[i + 1]);
                    }
                }
            }
        }
    }
    let overlapping = game.player.count_at(next_position);
    if overlapping > 1 || is_out_of_bounds(next_position) {
        game.dead = true;
    }
}

/// Lets `delta_nanos` nanoseconds pass. The clock gathers them whatever the
/// state of the game; where that ends a period and the snake is alive, the game
/// advances by one tick, and by no more however long the time was.
pub fn update(cmd: &mut Vec<Command>, spawner: &mut Spawner, game: &mut Game, delta_nanos: u64)
    requires
        old(game)@.wf(),
        old(game)@.issued_below(old(spawner)@),
        old(spawner)@ < u64::MAX,
    ensures
        final(game)@.timer == gathered(old(game)@.timer, delta_nanos as nat)
            % NANOS_PER_SECOND as nat,
        fires(old(game)@, delta_nanos) ==> {
            &&& ticked(
                GameView { timer: final(game)@.timer, ..old(game)@ },
                final(game)@,
                old(spawner)@,
            )
            &&& final(spawner)@ == old(spawner)@ + tick_handles(old(game)@)
            &&& final(cmd)@ == old(cmd)@ + tick_commands(old(game)@, final(game)@)
        },
        !fires(old(game)@, delta_nanos) ==> {
            &&& final(game)@ == (GameView { timer: final(game)@.timer, ..old(game)@ })
            &&& final(spawner)@ == old(spawner)@
            &&& final(cmd)@ == old(cmd)@
        },
        final(game)@.wf(),
        final(game)@.issued_below(final(spawner)@),
{
    let finished = game.tick_timer.tick(delta_nanos);
    if !game.dead && finished {
        step(cmd, spawner, game);
    }
}

/// Whether letting `delta_nanos` nanoseconds pass makes the game `pre` advance:
/// the snake is alive and the clock ends a period.
pub open spec fn fires(pre: GameView, delta_nanos: u64) -> bool {
    !pre.dead && gathered(pre.timer, delta_nanos as nat) >= NANOS_PER_SECOND
}

/// The queue of the game `pre` once it has taken in `keys`: a dead snake takes
/// in nothing.
pub open spec fn heard(pre: GameView, keys: Keys) -> Seq<Offset> {
    if pre.dead {
        pre.queue
    } else {
        pre.queue + pressed(keys)
    }
}

/// The request to end the application, where `keys` ask for it.
pub open spec fn exit_request(keys: Keys) -> Seq<Command> {
    if keys.escape {
        seq![Command::Exit]
    } else {
        Seq::empty()
    }
}

/// Takes in the keys of one frame.
///
/// While the snake is alive every direction key that went down queues its
/// turn. The restart key ends the game, dead or alive: everything on screen is
/// removed and a game starts anew. The escape key asks for the application to
/// end.
pub fn input(cmd: &mut Vec<Command>, spawner: &mut Spawner, game: &mut Game, keys: Keys)
    requires
        old(game)@.wf(),
        old(game)@.issued_below(old(spawner)@),
        keys.restart ==> old(spawner)@ + START_LENGTH + 1 <= u64::MAX,
    ensures
        keys.restart ==> {
            &&& final(game)@.fresh(old(spawner)@)
            &&& final(spawner)@ == old(spawner)@ + START_LENGTH + 1
            &&& final(cmd)@ == old(cmd)@ + despawns(old(game)@.player.body) + food_commands(
                old(game)@.food,
                None,
            ) + spawns(final(game)@.player.body) + food_commands(None, final(game)@.food)
                + exit_request(keys)
        },
        !keys.restart ==> {
            &&& final(game)@ == (GameView { queue: heard(old(game)@, keys), ..old(game)@ })
            &&& final(spawner)@ == old(spawner)@
            &&& final(cmd)@ == old(cmd)@ + exit_request(keys)
        },
        final(game)@.wf(),
        final(game)@.issued_below(final(spawner)@),
{
    if !game.dead {
        if keys.up {
            game.input_queue.push_back(Offset::up());
        }
        if keys.down {
            game.input_queue.push_back(Offset::down());
        }
        if keys.right {
            game.input_queue.push_back(Offset::right());
        }
        if keys.left {
            game.input_queue.push_back(Offset::left());
        }
    }
    assert(game@.queue =~= heard(old(game)@, keys));
    if keys.restart {
        cleanup_game(cmd, game);
        *game = setup_game(cmd, spawner);
    }
    if keys.escape {
        cmd.push(Command::Exit);
    }
    assert(!keys.restart ==> cmd@ =~= old(cmd)@ + exit_request(keys));
    assert(keys.restart ==> cmd@ =~= old(cmd)@ + despawns(old(game)@.player.body)
        + food_commands(old(game)@.food, None) + spawns(game@.player.body) + food_commands(
        None,
        game@.food,
    ) + exit_request(keys));
}

} // verus!
