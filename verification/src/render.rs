//! What the game asks of the host that draws it.
//!
//! The game names each thing on screen by a handle of its own. A [`Spawner`]
//! issues the handles; the host keeps the drawn object that belongs to each.

use crate::grid::Position;
use vstd::prelude::*;

verus! {

/// A request to the host.
#[derive(Debug, Clone, Copy, PartialEq, Eq, Structural)]
pub enum Command {
    /// Draw a new square for `entity` at `position`.
    Spawn { entity: u64, position: Position },
    /// Remove the square of `entity`.
    Despawn { entity: u64 },
    /// Move the square of `entity` to `position`.
    Move { entity: u64, position: Position },
    /// End the application.
    Exit,
}

/// One segment of the snake: its square on screen and the cell it lies on.
#[derive(Debug, Clone, Copy, PartialEq, Eq, Structural)]
pub struct SnakeNode {
    pub entity: u64,
    pub position: Position,
}

/// The food: its square on screen and the cell it lies on.
#[derive(Debug, Clone, Copy, PartialEq, Eq, Structural)]
pub struct SnakeFood {
    pub entity: u64,
    pub position: Position,
}

/// Issues handles, each one once, in rising order.
#[derive(Debug)]
pub struct Spawner {
    next: u64,
}

impl View for Spawner {
    type V = u64;

    /// The handle that will be issued next. Every handle issued so far is below
    /// it.
    closed spec fn view(&self) -> u64 {
        self.next
    }
}

impl Spawner {
    /// A spawner that has issued no handle.
    pub fn setup() -> (spawner: Spawner)
        ensures
            spawner@ == 0,
    {
        Spawner { next: 0 }
    }

    /// The handle that will be issued next.
    pub fn next_entity(&self) -> (next: u64)
        ensures
            next == self@,
    {
        self.next
    }

    /// How many more handles can be issued.
    pub fn room(&self) -> (left: u64)
        ensures
            left == u64::MAX - self@,
    {
        u64::MAX - self.next
    }

    /// Issues a handle for a snake segment at `position` and asks the host to
    /// draw it.
    pub fn new_node(&mut self, cmd: &mut Vec<Command>, position: Position) -> (node: SnakeNode)
        requires
            old(self)@ < u64::MAX,
        ensures
            node == (SnakeNode { entity: old(self)@, position }),
            final(self)@ == old(self)@ + 1,
            final(cmd)@ == old(cmd)@.push(Command::Spawn { entity: old(self)@, position }),
    {
        let entity: u64 = self.next;
        self.next = entity + 1;
        cmd.push(Command::Spawn { entity, position });
        SnakeNode { entity, position }
    }

    /// Issues a handle for the food at `position` and asks the host to draw it.
    pub fn new_food(&mut self, cmd: &mut Vec<Command>, position: Position) -> (food: SnakeFood)
        requires
            old(self)@ < u64::MAX,
        ensures
            food == (SnakeFood { entity: old(self)@, position }),
            final(self)@ == old(self)@ + 1,
            final(cmd)@ == old(cmd)@.push(Command::Spawn { entity: old(self)@, position }),
    {
        let entity: u64 = self.next;
        self.next = entity + 1;
        cmd.push(Command::Spawn { entity, position });
        SnakeFood { entity, position }
    }
}

} // verus!
