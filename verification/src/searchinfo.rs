use crate::definitions::Depth;
use vstd::prelude::*;

verus! {

/// What ends a search.
#[derive(Clone, Copy, PartialEq, Eq, Debug)]
pub enum SearchLimit {
    /// Nothing but the order to stop.
    Infinite,
    /// The depth that is reached.
    Depth(Depth),
    /// The time that is spent, in milliseconds.
    Time(u64),
    /// The number of positions that are looked at.
    Nodes(u64),
    /// The clocks of the game, in milliseconds: what is left to the side to
    /// move and to the other side, what each gets with every move, and the
    /// number of moves to the next time control, where it is known.
    Dynamic { our_clock: u64, their_clock: u64, our_inc: u64, their_inc: u64, moves_to_go: Option<u64> },
}

/// What a search is told.
#[derive(Clone, Copy, PartialEq, Eq, Debug)]
pub struct SearchInfo {
    /// What ends the search.
    pub limit: SearchLimit,
    /// Whether the program is to end.
    pub quit: bool,
}

impl Default for SearchInfo {
    fn default() -> (info: SearchInfo)
        ensures
            info.limit == SearchLimit::Infinite,
            !info.quit,
    {
        SearchInfo { limit: SearchLimit::Infinite, quit: false }
    }
}

} // verus!
