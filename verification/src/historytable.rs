use crate::board::evaluation::score::trunc_div;
use crate::definitions::Depth;
use crate::piece::Piece;
use vstd::prelude::*;

verus! {

/// The bound of a history score: no score is above it, and none is below its
/// negation.
pub const HISTORY_MAX: i16 = 16_384;

/// What one ply of depth adds to a history score.
pub const HISTORY_PER_PLY: i32 = 32;

/// The depth, in plies, beyond which a deeper search adds no more.
pub const HISTORY_DEPTH_CAP: i32 = 128;

/// The number of scores of a history table: one for each piece and square.
pub const HISTORY_SLOTS: usize = 832;

/// What a result at a depth of `plies` plies is worth: so much for each ply,
/// for no fewer than no ply and no more than the cap.
pub open spec fn history_bonus(plies: int) -> int {
    if plies < 0 {
        0
    } else if plies > HISTORY_DEPTH_CAP {
        HISTORY_PER_PLY * HISTORY_DEPTH_CAP
    } else {
        HISTORY_PER_PLY * plies
    }
}

/// `v`, held between the two bounds of a history score.
pub open spec fn saturate(v: int) -> int {
    if v > HISTORY_MAX {
        HISTORY_MAX as int
    } else if v < -HISTORY_MAX {
        -HISTORY_MAX
    } else {
        v
    }
}

/// The score that follows `old` after a result at a depth of `plies` plies:
/// raised by what the depth is worth where the move was good, lowered by it
/// where it was not, and held between the bounds.
pub open spec fn updated_history(old: int, good: bool, plies: int) -> int {
    saturate(
        if good {
            old + history_bonus(plies)
        } else {
            old - history_bonus(plies)
        },
    )
}

/// The score that an entry `v` has after ageing: half of it, rounded toward
/// zero.
pub open spec fn aged(v: int) -> int {
    trunc_div(v, 2)
}

/// The score that follows `start` after one result for each depth of `depths`,
/// all of them good or all of them bad.
pub open spec fn updated_all(start: int, good: bool, depths: Seq<int>) -> int
    decreases depths.len(),
{
    if depths.len() == 0 {
        start
    } else {
        updated_history(updated_all(start, good, depths.drop_last()), good, depths.last())
    }
}

/// However many results are recorded for a move, its score stays between the
/// bounds.
pub proof fn lemma_history_saturates(start: int, good: bool, depths: Seq<int>)
    requires
        -HISTORY_MAX <= start <= HISTORY_MAX,
    ensures
        -HISTORY_MAX <= updated_all(start, good, depths) <= HISTORY_MAX,
    decreases depths.len(),
{
    if depths.len() > 0 {
        lemma_history_saturates(start, good, depths.drop_last());
    }
}

/// A good result never lowers a score that is within the bounds, and a bad one
/// never raises it; a result at a depth of at least one ply moves a score that
/// is not yet at the bound on its side.
pub proof fn lemma_history_direction(old: int, plies: int)
    requires
        -HISTORY_MAX <= old <= HISTORY_MAX,
    ensures
        updated_history(old, true, plies) >= old,
        updated_history(old, false, plies) <= old,
        plies >= 1 && old < HISTORY_MAX ==> updated_history(old, true, plies) > old,
        plies >= 1 && old > -HISTORY_MAX ==> updated_history(old, false, plies) < old,
{
}

/// Ageing brings every score that is not zero nearer to zero and leaves it on
/// its side of zero; zero stays zero.
pub proof fn lemma_ageing_decays(v: int)
    ensures
        v > 0 ==> 0 <= aged(v) < v,
        v < 0 ==> v < aged(v) <= 0,
        v == 0 ==> aged(v) == 0,
{
}

/// Records in `val` a result at depth `depth`: that the move was good where
/// `IS_GOOD`, that it was searched to no avail elsewhere.
pub fn update_history<const IS_GOOD: bool>(val: &mut i16, depth: Depth)
    ensures
        *final(val) == updated_history(*old(val) as int, IS_GOOD, depth.spec_plies() as int),
        -HISTORY_MAX <= *final(val) <= HISTORY_MAX,
{
    let plies = depth.plies();
    let capped: i32 = if plies < 0 {
        0
    } else if plies > HISTORY_DEPTH_CAP {
        HISTORY_DEPTH_CAP
    } else {
        plies
    };
    let bonus = HISTORY_PER_PLY * capped;
    let delta = if IS_GOOD {
        bonus
    } else {
        -bonus
    };
    let sum: i32 = *val as i32 + delta;
    *val = if sum > HISTORY_MAX as i32 {
        HISTORY_MAX
    } else if sum < -(HISTORY_MAX as i32) {
        -HISTORY_MAX
    } else {
        sum as i16
    };
}

/// The place of the score of `piece` on `sq` in a history table.
pub open spec fn slot(piece: Piece, sq: int) -> int {
    piece.spec_index() * 64 + sq
}

/// A score for each piece and each square that it can go to.
#[derive(Clone, Debug)]
pub struct HistoryTable {
    pub table: Vec<i16>,
}

impl HistoryTable {
    /// Whether the table holds a score for each piece and square, each of
    /// them between the two bounds of a history score.
    pub open spec fn wf(&self) -> bool {
        &&& self.table@.len() == HISTORY_SLOTS
        &&& forall|i: int|
            0 <= i < HISTORY_SLOTS ==> -HISTORY_MAX <= #[trigger] self.table@[i] <= HISTORY_MAX
    }

    /// The score of `piece` going to `sq`.
    pub open spec fn spec_get(&self, piece: Piece, sq: int) -> i16 {
        self.table@[slot(piece, sq)]
    }

    /// The table in which every score is zero.
    pub fn new() -> (t: HistoryTable)
        ensures
            t.wf(),
            forall|i: int| 0 <= i < HISTORY_SLOTS ==> t.table@[i] == 0,
    {
        let mut table: Vec<i16> = Vec::new();
        let mut i: usize = 0;
        while i < HISTORY_SLOTS
            invariant
                i <= HISTORY_SLOTS,
                table@.len() == i,
                forall|j: int| 0 <= j < i ==> table@[j] == 0,
            decreases HISTORY_SLOTS - i,
        {
            table.push(0);
            i += 1;
        }
        HistoryTable { table }
    }

    /// Sets every score to zero.
    pub fn clear(&mut self)
        requires
            old(self).wf(),
        ensures
            final(self).wf(),
            forall|i: int| 0 <= i < HISTORY_SLOTS ==> final(self).table@[i] == 0,
    {
        let mut i: usize = 0;
        while i < HISTORY_SLOTS
            invariant
                i <= HISTORY_SLOTS,
                self.wf(),
                forall|j: int| 0 <= j < i ==> self.table@[j] == 0,
            decreases HISTORY_SLOTS - i,
        {
            self.table.set(i, 0);
            i += 1;
        }
    }

    /// Halves every score, rounding toward zero.
    pub fn age_entries(&mut self)
        requires
            old(self).wf(),
        ensures
            final(self).wf(),
            forall|i: int|
                0 <= i < HISTORY_SLOTS ==> final(self).table@[i] == aged(old(self).table@[i] as int),
    {
        let mut i: usize = 0;
        while i < HISTORY_SLOTS
            invariant
                i <= HISTORY_SLOTS,
                self.wf(),
                forall|j: int| 0 <= j < i ==> self.table@[j] == aged(old(self).table@[j] as int),
                forall|j: int| i <= j < HISTORY_SLOTS ==> self.table@[j] == old(self).table@[j],
            decreases HISTORY_SLOTS - i,
        {
            let v = self.table[i];
            self.table.set(i, v / 2);
            i += 1;
        }
    }

    /// The score of `piece` going to `sq`.
    pub fn get(&self, piece: Piece, sq: u8) -> (v: i16)
        requires
            self.wf(),
            sq < 64,
        ensures
            v == self.spec_get(piece, sq as int),
    {
        self.table[piece.index() * 64 + sq as usize]
    }

    /// The score of `piece` going to `sq`, to be changed in place.
    pub fn get_mut(&mut self, piece: Piece, sq: u8) -> (v: &mut i16)
        requires
            old(self).wf(),
            sq < 64,
        ensures
            *v == old(self).spec_get(piece, sq as int),
            final(self).table@ == old(self).table@.update(slot(piece, sq as int), *final(v)),
    {
        &mut self.table[piece.index() * 64 + sq as usize]
    }
}

/// A history table for each piece and square: the scores of a move by the
/// piece and the square of a move before it.
#[derive(Clone, Debug)]
pub struct DoubleHistoryTable {
    pub table: Vec<HistoryTable>,
}

impl DoubleHistoryTable {
    /// Whether there is a table for each piece and square, each of them whole
    /// and with its scores between the two bounds.
    pub open spec fn wf(&self) -> bool {
        &&& self.table@.len() == HISTORY_SLOTS
        &&& forall|i: int| 0 <= i < HISTORY_SLOTS ==> (#[trigger] self.table@[i]).wf()
    }

    /// The score of `piece` going to `sq` after `prev_piece` went to `prev_sq`.
    pub open spec fn spec_get(&self, prev_piece: Piece, prev_sq: int, piece: Piece, sq: int) -> i16 {
        self.table@[slot(prev_piece, prev_sq)].spec_get(piece, sq)
    }

    /// The tables in which every score is zero.
    pub fn new() -> (t: DoubleHistoryTable)
        ensures
            t.wf(),
            forall|i: int, j: int|
                0 <= i < HISTORY_SLOTS && 0 <= j < HISTORY_SLOTS ==> (#[trigger] t.table@[i].table@[j])
                    == 0,
    {
        let mut table: Vec<HistoryTable> = Vec::new();
        let mut i: usize = 0;
        while i < HISTORY_SLOTS
            invariant
                i <= HISTORY_SLOTS,
                table@.len() == i,
                forall|k: int| 0 <= k < i ==> (#[trigger] table@[k]).wf(),
                forall|k: int, j: int|
                    0 <= k < i && 0 <= j < HISTORY_SLOTS ==> (#[trigger] table@[k].table@[j]) == 0,
            decreases HISTORY_SLOTS - i,
        {
            table.push(HistoryTable::new());
            i += 1;
        }
        DoubleHistoryTable { table }
    }

    /// Sets every score to zero.
    pub fn clear(&mut self)
        requires
            old(self).wf(),
        ensures
            final(self).wf(),
            forall|i: int, j: int|
                0 <= i < HISTORY_SLOTS && 0 <= j < HISTORY_SLOTS ==> (#[trigger] final(self).table@[i].table@[j]) == 0,
    {
        let mut i: usize = 0;
        while i < HISTORY_SLOTS
            invariant
                i <= HISTORY_SLOTS,
                self.wf(),
                forall|k: int, j: int|
                    0 <= k < i && 0 <= j < HISTORY_SLOTS ==> (#[trigger] self.table@[k].table@[j])
                        == 0,
            decreases HISTORY_SLOTS - i,
        {
            self.table[i].clear();
            i += 1;
        }
    }

    /// Halves every score, rounding toward zero.
    pub fn age_entries(&mut self)
        requires
            old(self).wf(),
        ensures
            final(self).wf(),
            forall|i: int, j: int|
                0 <= i < HISTORY_SLOTS && 0 <= j < HISTORY_SLOTS ==> (#[trigger] final(self).table@[i].table@[j]) == aged(old(self).table@[i].table@[j] as int),
    {
        let mut i: usize = 0;
        while i < HISTORY_SLOTS
            invariant
                i <= HISTORY_SLOTS,
                self.wf(),
                forall|k: int, j: int|
                    0 <= k < i && 0 <= j < HISTORY_SLOTS ==> (#[trigger] self.table@[k].table@[j])
                        == aged(old(self).table@[k].table@[j] as int),
                forall|k: int| i <= k < HISTORY_SLOTS ==> self.table@[k] == old(self).table@[k],
            decreases HISTORY_SLOTS - i,
        {
            self.table[i].age_entries();
            i += 1;
        }
    }

    /// The scores of the moves that follow `piece` going to `sq`.
    pub fn get(&self, piece: Piece, sq: u8) -> (t: &HistoryTable)
        requires
            self.wf(),
            sq < 64,
        ensures
            *t == self.table@[slot(piece, sq as int)],
            t.wf(),
    {
        &self.table[piece.index() * 64 + sq as usize]
    }

    /// The scores of the moves that follow `piece` going to `sq`, to be
    /// changed in place.
    pub fn get_mut(&mut self, piece: Piece, sq: u8) -> (t: &mut HistoryTable)
        requires
            old(self).wf(),
            sq < 64,
        ensures
            *t == old(self).table@[slot(piece, sq as int)],
            final(self).table@ == old(self).table@.update(slot(piece, sq as int), *final(t)),
    {
        &mut self.table[piece.index() * 64 + sq as usize]
    }
}

} // verus!
