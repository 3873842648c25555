use crate::board::Board;
use crate::chessmove::Move;
use crate::definitions::{Depth, MAX_PLY};
use crate::historytable::{lemma_history_direction, slot, update_history, updated_history};
use crate::piece::Piece;
use crate::threadlocal::ThreadData;
use vstd::prelude::*;

verus! {

impl Board {
    /// The piece and the square by which a move in this position is found in
    /// the follow-up history: the piece that moved two plies ago and the
    /// square that it went to. The piece is the one that the last move
    /// captured, where it captured on that square, and else the one that
    /// stands there. There is none where fewer than two moves led here, where
    /// one of the last two moves was the null move, or where the last move
    /// captured en passant.
    pub open spec fn followup_key(&self) -> Option<(Piece, u8)> {
        let n = self.history@.len();
        if n < 2 {
            None
        } else {
            let move_to_follow_up = self.history@[n - 2].m;
            let prev = self.history@[n - 1];
            if move_to_follow_up.spec_is_null() || prev.m.spec_is_null() || prev.m.spec_is_ep() {
                None
            } else {
                let to = move_to_follow_up.spec_to();
                if prev.capture != Piece::Empty && prev.m.spec_to() == to {
                    Some((prev.capture, to))
                } else {
                    Some((self.piece_on(to as int), to))
                }
            }
        }
    }

    /// The piece and the square by which a move in this position is found in
    /// the counter-move history: the piece that moved last, which stands on
    /// the square that it went to, and that square. There is none where no
    /// move led here, or where the last move was the null move or captured en
    /// passant.
    pub open spec fn countermove_key(&self) -> Option<(Piece, u8)> {
        let n = self.history@.len();
        if n < 1 {
            None
        } else {
            let prev = self.history@[n - 1].m;
            if prev.spec_is_null() || prev.spec_is_ep() {
                None
            } else {
                Some((self.piece_on(prev.spec_to() as int), prev.spec_to()))
            }
        }
    }

    /// The key of the follow-up history in this position.
    pub fn followup_history_key(&self) -> (key: Option<(Piece, u8)>)
        requires
            self.wf(),
        ensures
            key == self.followup_key(),
            key matches Some((_, sq)) ==> sq < 64,
    {
        let n = self.history.len();
        if n < 2 {
            return None;
        }
        let move_to_follow_up = self.history[n - 2].m;
        let prev = self.history[n - 1];
        if move_to_follow_up.is_null() || prev.m.is_null() || prev.m.is_ep() {
            return None;
        }
        let tpa_to = move_to_follow_up.to();
        // The piece that went to the square two plies ago may have been
        // captured there by the move that followed.
        let tpa_piece = if prev.capture != Piece::Empty && prev.m.to() == tpa_to {
            prev.capture
        } else {
            self.piece_at(tpa_to)
        };
        Some((tpa_piece, tpa_to))
    }

    /// The key of the counter-move history in this position.
    pub fn countermove_history_key(&self) -> (key: Option<(Piece, u8)>)
        requires
            self.wf(),
        ensures
            key == self.countermove_key(),
            key matches Some((_, sq)) ==> sq < 64,
    {
        let n = self.history.len();
        if n < 1 {
            return None;
        }
        let prev_move = self.history[n - 1].m;
        if prev_move.is_null() || prev_move.is_ep() {
            return None;
        }
        let prev_to = prev_move.to();
        // The move has been played, so the piece that moved stands on its
        // target square.
        Some((self.piece_at(prev_to), prev_to))
    }
}

impl ThreadData {
    /// Whether everything but the three history tables is as it is in `other`.
    pub open spec fn same_but_history(&self, other: &ThreadData) -> bool {
        &&& self.same_scratch(other)
        &&& self.killer_move_table == other.killer_move_table
        &&& self.pvs == other.pvs
        &&& self.completed == other.completed
        &&& self.depth == other.depth
    }

    /// Add a quiet move to the history table: the score of the piece that `m`
    /// moves and of the square that it goes to takes in a result at `depth`.
    pub fn add_history<const IS_GOOD: bool>(&mut self, pos: &Board, m: Move, depth: Depth)
        requires
            old(self).wf(),
            pos.wf(),
        ensures
            final(self).wf(),
            final(self).history_table.table@ == old(self).history_table.table@.update(
                slot(pos.piece_on(m.spec_from() as int), m.spec_to() as int),
                updated_history(
                    old(self).history_table.spec_get(
                        pos.piece_on(m.spec_from() as int),
                        m.spec_to() as int,
                    ) as int,
                    IS_GOOD,
                    depth.spec_plies() as int,
                ) as i16,
            ),
            IS_GOOD ==> final(self).history_table.spec_get(
                pos.piece_on(m.spec_from() as int),
                m.spec_to() as int,
            ) >= old(self).history_table.spec_get(
                pos.piece_on(m.spec_from() as int),
                m.spec_to() as int,
            ),
            !IS_GOOD ==> final(self).history_table.spec_get(
                pos.piece_on(m.spec_from() as int),
                m.spec_to() as int,
            ) <= old(self).history_table.spec_get(
                pos.piece_on(m.spec_from() as int),
                m.spec_to() as int,
            ),
            final(self).followup_history == old(self).followup_history,
            final(self).counter_move_history == old(self).counter_move_history,
            final(self).same_but_history(old(self)),
    {
        let piece_moved = pos.moved_piece(m);
        let to = m.to();
        proof {
            lemma_history_direction(
                self.history_table.spec_get(piece_moved, to as int) as int,
                depth.spec_plies() as int,
            );
        }
        let val = self.history_table.get_mut(piece_moved, to);
        update_history::<IS_GOOD>(val, depth);
    }

    /// Get the history score for a quiet move.
    pub fn history_score(&self, pos: &Board, m: Move) -> (score: i16)
        requires
            self.wf(),
            pos.wf(),
        ensures
            score == self.history_table.spec_get(
                pos.piece_on(m.spec_from() as int),
                m.spec_to() as int,
            ),
    {
        let piece_moved = pos.moved_piece(m);
        let to = m.to();
        self.history_table.get(piece_moved, to)
    }

    /// Add a move to the follow-up history table: where the position has a
    /// key of the follow-up history, the score of `m` under that key takes in
    /// a result at `depth`; elsewhere nothing changes.
    pub fn add_followup_history<const IS_GOOD: bool>(&mut self, pos: &Board, m: Move, depth: Depth)
        requires
            old(self).wf(),
            pos.wf(),
        ensures
            final(self).wf(),
            match pos.followup_key() {
                None => final(self).followup_history == old(self).followup_history,
                Some((prev_piece, prev_to)) => {
                    let outer = slot(prev_piece, prev_to as int);
                    let inner = slot(pos.piece_on(m.spec_from() as int), m.spec_to() as int);
                    &&& final(self).followup_history.table@.len() == old(self).followup_history.table@.len()
                    &&& forall|i: int|
                        0 <= i < old(self).followup_history.table@.len() && i != outer ==> final(self).followup_history.table@[i] == old(self).followup_history.table@[i]
                    &&& final(self).followup_history.table@[outer].table@ == old(self).followup_history.table@[outer].table@.update(
                        inner,
                        updated_history(
                            old(self).followup_history.table@[outer].table@[inner] as int,
                            IS_GOOD,
                            depth.spec_plies() as int,
                        ) as i16,
                    )
                },
            },
            final(self).history_table == old(self).history_table,
            final(self).counter_move_history == old(self).counter_move_history,
            final(self).same_but_history(old(self)),
    {
        let (tpa_piece, tpa_to) = match pos.followup_history_key() {
            Some(key) => key,
            None => {
                return ;
            },
        };
        let to = m.to();
        let piece = pos.moved_piece(m);

        let val = self.followup_history.get_mut(tpa_piece, tpa_to).get_mut(piece, to);
        update_history::<IS_GOOD>(val, depth);
    }

    /// Get the follow-up history score for a move: the score of `m` under the
    /// position's key of the follow-up history, and zero where it has none.
    pub fn followup_history_score(&self, pos: &Board, m: Move) -> (score: i16)
        requires
            self.wf(),
            pos.wf(),
        ensures
            score == match pos.followup_key() {
                None => 0i16,
                Some((prev_piece, prev_to)) => self.followup_history.spec_get(
                    prev_piece,
                    prev_to as int,
                    pos.piece_on(m.spec_from() as int),
                    m.spec_to() as int,
                ),
            },
    {
        let (tpa_piece, tpa_to) = match pos.followup_history_key() {
            Some(key) => key,
            None => {
                return 0;
            },
        };
        let to = m.to();
        let piece = pos.moved_piece(m);

        self.followup_history.get(tpa_piece, tpa_to).get(piece, to)
    }

    /// Add a move to the counter-move history table: where the position has a
    /// key of the counter-move history, the score of `m` under that key takes
    /// in a result at `depth`; elsewhere nothing changes.
    pub fn add_countermove_history<const IS_GOOD: bool>(
        &mut self,
        pos: &Board,
        m: Move,
        depth: Depth,
    )
        requires
            old(self).wf(),
            pos.wf(),
        ensures
            final(self).wf(),
            match pos.countermove_key() {
                None => final(self).counter_move_history == old(self).counter_move_history,
                Some((prev_piece, prev_to)) => {
                    let outer = slot(prev_piece, prev_to as int);
                    let inner = slot(pos.piece_on(m.spec_from() as int), m.spec_to() as int);
                    &&& final(self).counter_move_history.table@.len() == old(self).counter_move_history.table@.len()
                    &&& forall|i: int|
                        0 <= i < old(self).counter_move_history.table@.len() && i != outer
                            ==> final(self).counter_move_history.table@[i] == old(self).counter_move_history.table@[i]
                    &&& final(self).counter_move_history.table@[outer].table@ == old(self).counter_move_history.table@[outer].table@.update(
                        inner,
                        updated_history(
                            old(self).counter_move_history.table@[outer].table@[inner] as int,
                            IS_GOOD,
                            depth.spec_plies() as int,
                        ) as i16,
                    )
                },
            },
            final(self).history_table == old(self).history_table,
            final(self).followup_history == old(self).followup_history,
            final(self).same_but_history(old(self)),
    {
        let (prev_piece, prev_to) = match pos.countermove_history_key() {
            Some(key) => key,
            None => {
                return ;
            },
        };
        let to = m.to();
        let piece = pos.moved_piece(m);

        let val = self.counter_move_history.get_mut(prev_piece, prev_to).get_mut(piece, to);
        update_history::<IS_GOOD>(val, depth);
    }

    /// Get the counter-move history score for a move: the score of `m` under
    /// the position's key of the counter-move history, and zero where it has
    /// none.
    pub fn countermove_history_score(&self, pos: &Board, m: Move) -> (score: i16)
        requires
            self.wf(),
            pos.wf(),
        ensures
            score == match pos.countermove_key() {
                None => 0i16,
                Some((prev_piece, prev_to)) => self.counter_move_history.spec_get(
                    prev_piece,
                    prev_to as int,
                    pos.piece_on(m.spec_from() as int),
                    m.spec_to() as int,
                ),
            },
    {
        let (prev_piece, prev_to) = match pos.countermove_history_key() {
            Some(key) => key,
            None => {
                return 0;
            },
        };
        let to = m.to();
        let piece = pos.moved_piece(m);

        self.counter_move_history.get(prev_piece, prev_to).get(piece, to)
    }

    /// Add a killer move: at the height of `pos`, the newer killer move becomes
    /// the older one and `m` the newer one.
    pub fn insert_killer(&mut self, pos: &Board, m: Move)
        requires
            old(self).wf(),
            pos.height < MAX_PLY,
        ensures
            final(self).wf(),
            final(self).killer_move_table@.len() == old(self).killer_move_table@.len(),
            final(self).killer_move_table@[pos.height as int][0] == m,
            final(self).killer_move_table@[pos.height as int][1] == old(self).killer_move_table@[pos.height as int][0],
            forall|i: int|
                0 <= i < MAX_PLY && i != pos.height ==> final(self).killer_move_table@[i] == old(self).killer_move_table@[i],
            final(self).history_table == old(self).history_table,
            final(self).followup_history == old(self).followup_history,
            final(self).counter_move_history == old(self).counter_move_history,
            final(self).same_scratch(old(self)),
            final(self).pvs == old(self).pvs,
            final(self).completed == old(self).completed,
            final(self).depth == old(self).depth,
    {
        let idx = pos.height;
        let newer = self.killer_move_table[idx][0];
        self.killer_move_table.set(idx, [m, newer]);
    }
}

} // verus!
