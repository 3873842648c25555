use crate::chessmove::Move;
use crate::definitions::MAX_PLY;
use crate::historytable::{aged, DoubleHistoryTable, HistoryTable, HISTORY_SLOTS};
use crate::piece::Colour;
use crate::search::PVariation;
use vstd::prelude::*;

verus! {

/// The bit of `banned_nmp` that bans null-move pruning for White.
pub const WHITE_BANNED_NMP: u8 = 0b01;

/// The bit of `banned_nmp` that bans null-move pruning for Black.
pub const BLACK_BANNED_NMP: u8 = 0b10;

/// What one worker of a search keeps for itself.
#[derive(Clone)]
pub struct ThreadData {
    /// The static evaluation at each ply.
    pub evals: Vec<i32>,
    /// The move that is left out at each ply while a singular move is tested.
    pub excluded: Vec<Move>,
    /// The best move found at each ply.
    pub best_moves: Vec<Move>,
    /// The number of double extensions on the way to each ply.
    pub double_extensions: Vec<i32>,
    /// The sides for which null-move pruning is switched off, one bit each.
    pub banned_nmp: u8,
    /// The root moves that are left out while further lines are searched.
    pub multi_pv_excluded: Vec<Move>,
    /// The scores of quiet moves by piece and target square.
    pub history_table: HistoryTable,
    /// The scores of quiet moves by the move two plies before them.
    pub followup_history: DoubleHistoryTable,
    /// The two killer moves of each ply, the newer one first.
    pub killer_move_table: Vec<[Move; 2]>,
    /// The scores of quiet moves by the move that they answer.
    pub counter_move_history: DoubleHistoryTable,
    /// The number of this worker.
    pub thread_id: usize,
    /// The principal variation of each depth.
    pub pvs: Vec<PVariation>,
    /// The greatest depth that was searched to the end.
    pub completed: usize,
    /// The depth that is being searched.
    pub depth: usize,
}

/// The bit that bans null-move pruning for `colour`.
pub open spec fn nmp_mask(colour: Colour) -> u8 {
    match colour {
        Colour::White => WHITE_BANNED_NMP,
        Colour::Black => BLACK_BANNED_NMP,
    }
}

fn nmp_mask_of(colour: Colour) -> (mask: u8)
    ensures
        mask == nmp_mask(colour),
{
    match colour {
        Colour::White => WHITE_BANNED_NMP,
        Colour::Black => BLACK_BANNED_NMP,
    }
}

impl ThreadData {
    /// Whether each table and each array is of its full size.
    pub open spec fn wf(&self) -> bool {
        &&& self.evals@.len() == MAX_PLY
        &&& self.excluded@.len() == MAX_PLY
        &&& self.best_moves@.len() == MAX_PLY
        &&& self.double_extensions@.len() == MAX_PLY
        &&& self.killer_move_table@.len() == MAX_PLY
        &&& self.pvs@.len() == MAX_PLY
        &&& self.history_table.wf()
        &&& self.followup_history.wf()
        &&& self.counter_move_history.wf()
    }

    /// Whether null-move pruning is switched off for `colour`.
    pub open spec fn nmp_banned(&self, colour: Colour) -> bool {
        self.banned_nmp & nmp_mask(colour) != 0
    }

    /// Whether every killer move is the null move.
    pub open spec fn killers_cleared(&self) -> bool {
        forall|i: int|
            0 <= i < MAX_PLY ==> (#[trigger] self.killer_move_table@[i])[0] == Move::spec_null()
                && self.killer_move_table@[i][1] == Move::spec_null()
    }

    /// Whether the search has yet to begin: no depth reached, none completed,
    /// and every principal variation empty.
    pub open spec fn search_reset(&self) -> bool {
        &&& self.depth == 0
        &&& self.completed == 0
        &&& forall|i: int| 0 <= i < MAX_PLY ==> (#[trigger] self.pvs@[i]).is_empty()
    }

    /// Whether everything that outlasts a search but its history tables,
    /// killer moves and principal variations is as it is in `other`.
    pub open spec fn same_scratch(&self, other: &ThreadData) -> bool {
        &&& self.evals == other.evals
        &&& self.excluded == other.excluded
        &&& self.best_moves == other.best_moves
        &&& self.double_extensions == other.double_extensions
        &&& self.banned_nmp == other.banned_nmp
        &&& self.multi_pv_excluded == other.multi_pv_excluded
        &&& self.thread_id == other.thread_id
    }

    /// The state of the worker with the number `thread_id`, before its first
    /// search.
    pub fn new(thread_id: usize) -> (td: ThreadData)
        ensures
            td.wf(),
            td.thread_id == thread_id,
            td.banned_nmp == 0,
            td.multi_pv_excluded@.len() == 0,
            td.killers_cleared(),
            td.search_reset(),
            forall|i: int| 0 <= i < MAX_PLY ==> td.evals@[i] == 0 && td.double_extensions@[i] == 0,
            forall|i: int|
                0 <= i < MAX_PLY ==> td.excluded@[i] == Move::spec_null() && td.best_moves@[i]
                    == Move::spec_null(),
            forall|i: int| 0 <= i < HISTORY_SLOTS ==> td.history_table.table@[i] == 0,
            forall|i: int, j: int|
                0 <= i < HISTORY_SLOTS && 0 <= j < HISTORY_SLOTS ==> (
                #[trigger] td.followup_history.table@[i].table@[j]) == 0,
            forall|i: int, j: int|
                0 <= i < HISTORY_SLOTS && 0 <= j < HISTORY_SLOTS ==> (
                #[trigger] td.counter_move_history.table@[i].table@[j]) == 0,
    {
        let mut evals: Vec<i32> = Vec::new();
        let mut excluded: Vec<Move> = Vec::new();
        let mut best_moves: Vec<Move> = Vec::new();
        let mut double_extensions: Vec<i32> = Vec::new();
        let mut killer_move_table: Vec<[Move; 2]> = Vec::new();
        let mut pvs: Vec<PVariation> = Vec::new();
        let mut i: usize = 0;
        while i < MAX_PLY
            invariant
                i <= MAX_PLY,
                evals@.len() == i,
                excluded@.len() == i,
                best_moves@.len() == i,
                double_extensions@.len() == i,
                killer_move_table@.len() == i,
                pvs@.len() == i,
                forall|k: int| 0 <= k < i ==> evals@[k] == 0 && double_extensions@[k] == 0,
                forall|k: int|
                    0 <= k < i ==> excluded@[k] == Move::spec_null() && best_moves@[k]
                        == Move::spec_null(),
                forall|k: int|
                    0 <= k < i ==> (#[trigger] killer_move_table@[k])[0] == Move::spec_null()
                        && killer_move_table@[k][1] == Move::spec_null(),
                forall|k: int| 0 <= k < i ==> (#[trigger] pvs@[k]).is_empty(),
            decreases MAX_PLY - i,
        {
            evals.push(0);
            excluded.push(Move::null());
            best_moves.push(Move::null());
            double_extensions.push(0);
            killer_move_table.push([Move::null(), Move::null()]);
            pvs.push(PVariation::default());
            i += 1;
        }
        ThreadData {
            evals,
            excluded,
            best_moves,
            double_extensions,
            banned_nmp: 0,
            multi_pv_excluded: Vec::new(),
            history_table: HistoryTable::new(),
            followup_history: DoubleHistoryTable::new(),
            killer_move_table,
            counter_move_history: DoubleHistoryTable::new(),
            thread_id,
            pvs,
            completed: 0,
            depth: 0,
        }
    }

    /// Switches null-move pruning off for `colour`.
    pub fn ban_nmp_for(&mut self, colour: Colour)
        ensures
            final(self).banned_nmp == old(self).banned_nmp | nmp_mask(colour),
            final(self).nmp_banned(colour),
            final(self).nmp_banned(colour.spec_flip()) == old(self).nmp_banned(colour.spec_flip()),
            final(self).same_tables(old(self)),
    {
        let mask = nmp_mask_of(colour);
        let before = self.banned_nmp;
        proof {
            assert((before | 1u8) & 1u8 != 0 && (before | 2u8) & 2u8 != 0 && (before | 1u8) & 2u8
                == before & 2u8 && (before | 2u8) & 1u8 == before & 1u8) by (bit_vector);
        }
        self.banned_nmp = before | mask;
    }

    /// Switches null-move pruning on again for `colour`.
    pub fn unban_nmp_for(&mut self, colour: Colour)
        ensures
            final(self).banned_nmp == old(self).banned_nmp & !nmp_mask(colour),
            !final(self).nmp_banned(colour),
            final(self).nmp_banned(colour.spec_flip()) == old(self).nmp_banned(colour.spec_flip()),
            final(self).same_tables(old(self)),
    {
        let mask = nmp_mask_of(colour);
        let before = self.banned_nmp;
        proof {
            assert((before & !1u8) & 1u8 == 0 && (before & !2u8) & 2u8 == 0 && (before & !1u8) & 2u8
                == before & 2u8 && (before & !2u8) & 1u8 == before & 1u8) by (bit_vector);
        }
        self.banned_nmp = before & !mask;
    }

    /// Whether null-move pruning is switched off for `colour`.
    pub fn nmp_banned_for(&self, colour: Colour) -> (r: bool)
        ensures
            r == self.nmp_banned(colour),
    {
        self.banned_nmp & nmp_mask_of(colour) != 0
    }

    /// Whether everything but the flags of null-move pruning is as it is in
    /// `other`.
    pub open spec fn same_tables(&self, other: &ThreadData) -> bool {
        &&& self.evals == other.evals
        &&& self.excluded == other.excluded
        &&& self.best_moves == other.best_moves
        &&& self.double_extensions == other.double_extensions
        &&& self.multi_pv_excluded == other.multi_pv_excluded
        &&& self.history_table == other.history_table
        &&& self.followup_history == other.followup_history
        &&& self.killer_move_table == other.killer_move_table
        &&& self.counter_move_history == other.counter_move_history
        &&& self.thread_id == other.thread_id
        &&& self.pvs == other.pvs
        &&& self.completed == other.completed
        &&& self.depth == other.depth
    }

    /// Sets every killer move to the null move and every principal variation
    /// to the empty one, and the two depths to zero.
    fn reset_search(&mut self)
        requires
            old(self).wf(),
        ensures
            final(self).wf(),
            final(self).killers_cleared(),
            final(self).search_reset(),
            final(self).same_scratch(old(self)),
            final(self).history_table == old(self).history_table,
            final(self).followup_history == old(self).followup_history,
            final(self).counter_move_history == old(self).counter_move_history,
    {
        let mut i: usize = 0;
        while i < MAX_PLY
            invariant
                i <= MAX_PLY,
                self.wf(),
                self.same_scratch(old(self)),
                self.history_table == old(self).history_table,
                self.followup_history == old(self).followup_history,
                self.counter_move_history == old(self).counter_move_history,
                forall|k: int|
                    0 <= k < i ==> (#[trigger] self.killer_move_table@[k])[0] == Move::spec_null()
                        && self.killer_move_table@[k][1] == Move::spec_null(),
                forall|k: int| 0 <= k < i ==> (#[trigger] self.pvs@[k]).is_empty(),
            decreases MAX_PLY - i,
        {
            self.killer_move_table.set(i, [Move::null(), Move::null()]);
            self.pvs.set(i, PVariation::default());
            i += 1;
        }
        self.depth = 0;
        self.completed = 0;
    }

    /// Makes the state ready for a new game: every history score is set to
    /// zero, every killer move to the null move and every principal variation
    /// to the empty one, and the two depths to zero.
    pub fn alloc_tables(&mut self)
        requires
            old(self).wf(),
        ensures
            final(self).wf(),
            final(self).killers_cleared(),
            final(self).search_reset(),
            final(self).same_scratch(old(self)),
            forall|i: int| 0 <= i < HISTORY_SLOTS ==> final(self).history_table.table@[i] == 0,
            forall|i: int, j: int|
                0 <= i < HISTORY_SLOTS && 0 <= j < HISTORY_SLOTS ==> (#[trigger] final(self).followup_history.table@[i].table@[j]) == 0,
            forall|i: int, j: int|
                0 <= i < HISTORY_SLOTS && 0 <= j < HISTORY_SLOTS ==> (#[trigger] final(self).counter_move_history.table@[i].table@[j]) == 0,
    {
        self.history_table.clear();
        self.followup_history.clear();
        self.counter_move_history.clear();
        self.reset_search();
    }

    /// Makes the state ready for a new search in the same game: every history
    /// score is halved, rounding toward zero; every killer move is set to the
    /// null move and every principal variation to the empty one, and the two
    /// depths to zero.
    pub fn setup_tables_for_search(&mut self)
        requires
            old(self).wf(),
        ensures
            final(self).wf(),
            final(self).killers_cleared(),
            final(self).search_reset(),
            final(self).same_scratch(old(self)),
            forall|i: int|
                0 <= i < HISTORY_SLOTS ==> final(self).history_table.table@[i] == aged(
                    old(self).history_table.table@[i] as int,
                ),
            forall|i: int, j: int|
                0 <= i < HISTORY_SLOTS && 0 <= j < HISTORY_SLOTS ==> (#[trigger] final(self).followup_history.table@[i].table@[j]) == aged(
                    old(self).followup_history.table@[i].table@[j] as int,
                ),
            forall|i: int, j: int|
                0 <= i < HISTORY_SLOTS && 0 <= j < HISTORY_SLOTS ==> (#[trigger] final(self).counter_move_history.table@[i].table@[j]) == aged(
                    old(self).counter_move_history.table@[i].table@[j] as int,
                ),
    {
        self.history_table.age_entries();
        self.followup_history.age_entries();
        self.counter_move_history.age_entries();
        self.reset_search();
    }

    /// Records that the search of the current depth came to its end, with `pv`
    /// as its principal variation.
    pub fn update_best_line(&mut self, pv: &PVariation)
        requires
            old(self).wf(),
            old(self).depth < MAX_PLY,
        ensures
            final(self).wf(),
            final(self).completed == old(self).depth,
            final(self).depth == old(self).depth,
            final(self).pvs@.len() == old(self).pvs@.len(),
            final(self).pvs@[old(self).depth as int].score == pv.score,
            final(self).pvs@[old(self).depth as int].line@ == pv.line@,
            forall|i: int|
                0 <= i < MAX_PLY && i != old(self).depth ==> final(self).pvs@[i] == old(self).pvs@[i],
            final(self).same_scratch(old(self)),
            final(self).history_table == old(self).history_table,
            final(self).followup_history == old(self).followup_history,
            final(self).counter_move_history == old(self).counter_move_history,
            final(self).killer_move_table == old(self).killer_move_table,
    {
        self.completed = self.depth;
        self.pvs.set(self.depth, pv.clone());
    }

    /// Records that the search of the current depth was given up: the depth
    /// before it is the last one that was searched to the end.
    pub fn revert_best_line(&mut self)
        requires
            old(self).depth > 0,
        ensures
            final(self).completed == old(self).depth - 1,
            final(self).depth == old(self).depth,
            final(self).pvs == old(self).pvs,
            final(self).same_scratch(old(self)),
            final(self).history_table == old(self).history_table,
            final(self).followup_history == old(self).followup_history,
            final(self).counter_move_history == old(self).counter_move_history,
            final(self).killer_move_table == old(self).killer_move_table,
    {
        self.completed = self.depth - 1;
    }
}

} // verus!
