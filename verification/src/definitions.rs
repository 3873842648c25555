use vstd::prelude::*;

verus! {

/// The index of White wherever a side is given as a number.
pub const WHITE: u8 = 0;

/// The index of Black wherever a side is given as a number.
pub const BLACK: u8 = 1;

/// The number of squares on the board.
pub const BOARD_N_SQUARES: usize = 64;

/// The greatest number of plies from the root that a search may reach.
pub const MAX_PLY: usize = 128;

/// A search depth, in whole plies.
#[derive(Clone, Copy, PartialEq, Eq, Debug, Structural)]
pub struct Depth {
    plies: i32,
}

impl Depth {
    pub closed spec fn spec_plies(self) -> i32 {
        self.plies
    }

    /// The depth of `plies` plies.
    pub closed spec fn spec_new(plies: i32) -> Depth {
        Depth { plies }
    }

    #[verifier::when_used_as_spec(spec_new)]
    pub fn new(plies: i32) -> (d: Depth)
        ensures
            d == Depth::spec_new(plies),
            d.spec_plies() == plies,
    {
        Depth { plies }
    }

    /// The depth in whole plies.
    #[verifier::when_used_as_spec(spec_plies)]
    pub fn plies(self) -> (p: i32)
        ensures
            p == self.spec_plies(),
    {
        self.plies
    }

    /// The number of plies from the root at which a search of this depth ends:
    /// the depth itself, and zero for a negative one.
    pub fn ply_to_horizon(self) -> (n: usize)
        ensures
            n == if self.spec_plies() < 0 {
                0int
            } else {
                self.spec_plies() as int
            },
    {
        if self.plies < 0 {
            0
        } else {
            self.plies as usize
        }
    }
}

/// The rank of a square, 0 for the first rank.
pub open spec fn rank_of(sq: int) -> int {
    sq / 8
}

/// The file of a square, 0 for the a-file.
pub open spec fn file_of(sq: int) -> int {
    sq % 8
}

/// The square on rank `r` and file `f`.
pub open spec fn square_at(r: int, f: int) -> int {
    8 * r + f
}

/// Whether `r` and `f` name a rank and a file of the board.
pub open spec fn on_board(r: int, f: int) -> bool {
    0 <= r < 8 && 0 <= f < 8
}

pub fn rank(sq: u8) -> (r: u8)
    ensures
        r == rank_of(sq as int),
{
    sq / 8
}

pub fn file(sq: u8) -> (f: u8)
    ensures
        f == file_of(sq as int),
        f < 8,
{
    sq % 8
}

} // verus!
