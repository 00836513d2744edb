//! The rules of a grid snake game, as a state machine that a host engine drives.
//!
//! The host owns the window, the clock and the keyboard. Once per frame it hands
//! the library the keys and the elapsed time; the library updates the game and
//! appends to a list of [`Command`]s what the host has to draw, move or remove.

pub mod food;
pub mod game;
pub mod grid;
pub mod keys;
pub mod laws;
pub mod random;
pub mod render;
pub mod snake;
pub mod timer;

pub use food::find_vacant_cell;
pub use game::{cleanup_game, input, new_food, place_food, setup_game, update, Game};
pub use grid::{is_out_of_bounds, Offset, Position, HEIGHT, WIDTH};
pub use keys::Keys;
pub use render::{Command, SnakeFood, SnakeNode, Spawner};
pub use snake::Snake;
pub use timer::TickTimer;
