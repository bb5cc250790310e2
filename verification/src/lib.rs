//! A crossword-puzzle core: a data model that reconstructs a letter grid
//! from a list of overlapping words, the numbering of clue cells, and an
//! interactive cursor/solution state machine with word-aware movement.

pub mod decode;
pub mod geometry;
pub mod grid;
pub mod labels;
pub mod puzzle;
pub mod session;

pub use geometry::Direction;
pub use grid::Cell;
pub use geometry::Vec2;
pub use puzzle::Crossword;
pub use puzzle::CrosswordError;
pub use puzzle::Word;
pub use session::Input;
pub use session::Move;
pub use session::Session;
