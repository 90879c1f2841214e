//! Rules of chess on a hexagonal board of 91 tiles: coordinates, the board,
//! how each piece moves, and which moves are legal.

pub mod board;
pub mod coordinate;
pub mod diagrams;
pub mod game;
pub mod mov;
pub mod piece;
pub mod sides;

pub use board::Board;
pub use coordinate::{IVec2, Vec2};
pub use game::Game;
pub use mov::Move;
pub use sides::{Color, Side};
