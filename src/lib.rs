//! A ship that follows single-letter navigation instructions on a grid,
//! steering either by its own heading or by a waypoint that travels with it.
pub mod instruction;
pub mod parser;
pub mod rotation;
pub mod ship;

pub use instruction::Instruction;
pub use parser::{parse_instruction, read_instructions, LineError, ParseError};
pub use rotation::rotate_waypoint;
pub use ship::{manhattan_distance, Ship};
