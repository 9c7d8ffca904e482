//! The focus state machine: which pane — header, main grid, or side
//! history — currently receives input. The help overlay is a frozen state
//! that neither move leaves.

use vstd::prelude::*;

verus! {

#[derive(Copy, Clone, Debug, PartialEq, Eq, Structural)]
pub enum Focus {
    Head,
    Main,
    Side,
    Help,
}

/// Where a vertical move lands: the header is the sole top row, and a move
/// down from it always enters the main grid; from either body pane a
/// vertical move returns to the header.
pub open spec fn spec_next_vertical(f: Focus) -> Focus {
    match f {
        Focus::Head => Focus::Main,
        Focus::Main => Focus::Head,
        Focus::Side => Focus::Head,
        Focus::Help => Focus::Help,
    }
}

/// Where a horizontal move lands: the header does not move, and the two
/// body panes toggle.
pub open spec fn spec_next_horizontal(f: Focus) -> Focus {
    match f {
        Focus::Head => Focus::Head,
        Focus::Main => Focus::Side,
        Focus::Side => Focus::Main,
        Focus::Help => Focus::Help,
    }
}

impl Focus {
    /// Move focus vertically between the header and the body row.
    pub fn focus_next_vertical(&mut self)
        ensures
            *final(self) == spec_next_vertical(*old(self)),
    {
        *self = match *self {
            Focus::Head => Focus::Main,
            Focus::Main => Focus::Head,
            Focus::Side => Focus::Head,
            Focus::Help => Focus::Help,
        };
    }

    /// Move focus horizontally between the two body panes.
    pub fn focus_next_horizontal(&mut self)
        ensures
            *final(self) == spec_next_horizontal(*old(self)),
    {
        *self = match *self {
            Focus::Head => Focus::Head,
            Focus::Main => Focus::Side,
            Focus::Side => Focus::Main,
            Focus::Help => Focus::Help,
        };
    }
}

/// Two vertical moves starting from the main grid come back to the main
/// grid — never to the side pane — because the downward leg from the header
/// always chooses the grid.
pub proof fn lemma_vertical_round_trip()
    ensures
        spec_next_vertical(spec_next_vertical(Focus::Main)) == Focus::Main,
        spec_next_vertical(Focus::Main) == Focus::Head,
        spec_next_horizontal(Focus::Head) == Focus::Head,
{
}

} // verus!
