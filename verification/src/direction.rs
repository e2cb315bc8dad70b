//! The four directions and the arrows that stand for them.

use vstd::prelude::*;

verus! {

/// One of the four directions of an arrow key.
#[derive(Debug, Clone, Copy, PartialEq, Eq, Structural)]
pub enum Direction {
    Up,
    Down,
    Left,
    Right,
}

/// The arrow that points in the given direction, as a one-character sequence.
pub open spec fn direction_symbol(direction: Direction) -> Seq<char> {
    match direction {
        Direction::Up => seq!['↑'],
        Direction::Down => seq!['↓'],
        Direction::Left => seq!['←'],
        Direction::Right => seq!['→'],
    }
}

/// Returns the arrow that points in the given direction.
pub fn get_direction_symbol(direction: Direction) -> (r: String)
    ensures
        r@ == direction_symbol(direction),
{
    proof {
        reveal_strlit("↑");
        reveal_strlit("↓");
        reveal_strlit("←");
        reveal_strlit("→");
    }
    let symbol: &str = match direction {
        Direction::Up => "↑",
        Direction::Down => "↓",
        Direction::Left => "←",
        Direction::Right => "→",
    };
    assert(symbol@ =~= direction_symbol(direction));
    symbol.to_owned()
}

} // verus!
