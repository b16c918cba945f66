//! The finish line of a fixed-length run.

use vstd::prelude::*;

verus! {

/// A finish line at the given world height.
#[derive(Clone, Copy, PartialEq, Eq, Structural, Debug)]
pub struct Finish(pub i64);

/// The player has crossed the finish line: strictly below its height.
pub fn check_finish_crossed(finish: &Finish, player_y: i64) -> (crossed: bool)
    ensures
        crossed == (player_y < finish.0),
{
    player_y < finish.0
}

} // verus!
