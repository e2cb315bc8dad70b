//! Small verified building blocks: sequence reversal, maximum selection,
//! string helpers and a few plain data types.

pub mod direction;
pub mod reversal;
pub mod selection;
pub mod shapes;
pub mod strings;
pub mod workout;
