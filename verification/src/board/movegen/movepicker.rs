use crate::board::movegen::{fresh_all, MoveList, MoveListEntry, TT_MOVE_SCORE};
use crate::board::Board;
use crate::chessmove::Move;
use vstd::prelude::*;

verus! {

/// How far a move picker has come.
#[derive(Debug, Clone, Copy, PartialEq, Eq, Structural)]
pub enum Stage {
    /// The move from the transposition table has yet to be tried.
    TTMove,
    /// The moves have yet to be generated.
    GenerateMoves,
    /// The moves are generated and are handed out one by one.
    YieldMoves,
}

/// The score of a move that a given order does not hold.
pub const UNRANKED_SCORE: i32 = -1_000_000;

/// Hands out the moves of a position one by one, the best first: first the
/// move from the transposition table, then the generated moves by their
/// scores. With `CAPTURES_ONLY`, only capturing moves are generated.
pub struct MovePicker<const CAPTURES_ONLY: bool> {
    pub movelist: MoveList,
    pub index: usize,
    pub skip_ordering: bool,
    pub stage: Stage,
    pub tt_move: Move,
}

/// The place of the first entry with the greatest score among the entries of
/// `moves` from `from` up to `n`, `n` left out.
pub open spec fn best_upto(moves: Seq<MoveListEntry>, from: int, n: int) -> int
    decreases n - from,
{
    if n <= from + 1 {
        from
    } else {
        let best = best_upto(moves, from, n - 1);
        if moves[n - 1].score > moves[best].score {
            n - 1
        } else {
            best
        }
    }
}

/// The place of the first entry with the greatest score among the entries of
/// `moves` from `from` on.
pub open spec fn best_index(moves: Seq<MoveListEntry>, from: int) -> int {
    best_upto(moves, from, moves.len() as int)
}

/// `moves` with the entries at `i` and `j` exchanged.
pub open spec fn swapped(moves: Seq<MoveListEntry>, i: int, j: int) -> Seq<MoveListEntry> {
    moves.update(i, moves[j]).update(j, moves[i])
}

/// What a picker with the `n` entries `moves`, of which those before `index`
/// are handed out, hands out next, and the entries and the index that it is
/// left with: see `yield_from`.
pub open spec fn yield_among(
    moves: Seq<MoveListEntry>,
    n: int,
    index: int,
    skip_ordering: bool,
    tt: Move,
) -> (Seq<MoveListEntry>, int, Option<MoveListEntry>)
    decreases n - index,
{
    if index < 0 || index >= n {
        (moves, index, None)
    } else {
        let ordered = if skip_ordering {
            moves
        } else {
            swapped(moves, index, best_upto(moves, index, n))
        };
        if ordered[index].entry == tt {
            yield_among(ordered, n, index + 1, skip_ordering, tt)
        } else {
            (ordered, index + 1, Some(ordered[index]))
        }
    }
}

/// What a picker with the entries `moves`, of which those before `index` are
/// handed out, hands out next, and the entries and the index that it is left
/// with. Unless `skip_ordering`, the best of the entries from `index` on
/// changes places with the one at `index`. The entry at `index` is then handed
/// out, unless its move is `tt`: such an entry is passed over. Nothing is
/// handed out once no entry is left.
pub open spec fn yield_from(
    moves: Seq<MoveListEntry>,
    index: int,
    skip_ordering: bool,
    tt: Move,
) -> (Seq<MoveListEntry>, int, Option<MoveListEntry>) {
    yield_among(moves, moves.len() as int, index, skip_ordering, tt)
}

/// All that a picker with the `n` entries `moves`, of which those before
/// `index` are handed out, has yet to hand out: see `drain`.
pub open spec fn drain_among(
    moves: Seq<MoveListEntry>,
    n: int,
    index: int,
    skip_ordering: bool,
    tt: Move,
) -> Seq<MoveListEntry>
    decreases n - index,
{
    if index < 0 || index >= n {
        Seq::empty()
    } else {
        let ordered = if skip_ordering {
            moves
        } else {
            swapped(moves, index, best_upto(moves, index, n))
        };
        let rest = drain_among(ordered, n, index + 1, skip_ordering, tt);
        if ordered[index].entry == tt {
            rest
        } else {
            seq![ordered[index]] + rest
        }
    }
}

/// All that a picker with the entries `moves`, of which those before `index`
/// are handed out, has yet to hand out, in the order in which it hands it
/// out.
pub open spec fn drain(
    moves: Seq<MoveListEntry>,
    index: int,
    skip_ordering: bool,
    tt: Move,
) -> Seq<MoveListEntry> {
    drain_among(moves, moves.len() as int, index, skip_ordering, tt)
}

/// The best of the entries from `from` up to `n` is one of them.
pub proof fn lemma_best_upto(moves: Seq<MoveListEntry>, from: int, n: int)
    requires
        from < n,
    ensures
        from <= best_upto(moves, from, n) < n,
        forall|j: int|
            from <= j < n ==> (#[trigger] moves[j]).score <= moves[best_upto(moves, from, n)].score,
    decreases n - from,
{
    if n > from + 1 {
        lemma_best_upto(moves, from, n - 1);
    }
}

/// What a picker hands out next is the first of all that it has yet to hand
/// out, and what it has yet to hand out then is the rest.
pub proof fn lemma_drain_step(
    moves: Seq<MoveListEntry>,
    n: int,
    index: int,
    skip_ordering: bool,
    tt: Move,
)
    requires
        n == moves.len(),
        0 <= index,
    ensures
        ({
            let (after, at, out) = yield_among(moves, n, index, skip_ordering, tt);
            &&& after.len() == n
            &&& index <= at
            &&& match out {
                None => at >= n && drain_among(moves, n, index, skip_ordering, tt) =~= Seq::empty(),
                Some(e) => at <= n && drain_among(moves, n, index, skip_ordering, tt) =~= seq![e]
                    + drain_among(after, n, at, skip_ordering, tt),
            }
        }),
    decreases n - index,
{
    if index < n {
        lemma_best_upto(moves, index, n);
        let ordered = if skip_ordering {
            moves
        } else {
            swapped(moves, index, best_upto(moves, index, n))
        };
        if ordered[index].entry == tt {
            lemma_drain_step(ordered, n, index + 1, skip_ordering, tt);
        }
    }
}

/// Whether `e` is one of the entries of `moves` from `index` on.
pub open spec fn in_suffix(moves: Seq<MoveListEntry>, index: int, e: MoveListEntry) -> bool {
    exists|j: int| index <= j < moves.len() && moves[j] == e
}

/// Whether no entry is twice among the entries of `moves` from `index` on.
pub open spec fn distinct_suffix(moves: Seq<MoveListEntry>, index: int) -> bool {
    forall|i: int, j: int| index <= i < j < moves.len() ==> moves[i] != moves[j]
}

/// A picker has yet to hand out just those of its entries from `index` on
/// whose move is not the move from the transposition table; and each of them
/// once, where none of them is there twice.
pub proof fn lemma_drain(
    moves: Seq<MoveListEntry>,
    n: int,
    index: int,
    skip_ordering: bool,
    tt: Move,
)
    requires
        n == moves.len(),
        0 <= index <= n,
    ensures
        forall|e: MoveListEntry|
            #[trigger] drain_among(moves, n, index, skip_ordering, tt).contains(e) <==> e.entry
                != tt && in_suffix(moves, index, e),
        distinct_suffix(moves, index) ==> drain_among(
            moves,
            n,
            index,
            skip_ordering,
            tt,
        ).no_duplicates(),
    decreases n - index,
{
    let all = drain_among(moves, n, index, skip_ordering, tt);
    if index < n {
        lemma_best_upto(moves, index, n);
        let best = best_upto(moves, index, n);
        let ordered = if skip_ordering {
            moves
        } else {
            swapped(moves, index, best)
        };
        let rest = drain_among(ordered, n, index + 1, skip_ordering, tt);
        lemma_drain(ordered, n, index + 1, skip_ordering, tt);
        // The entries from `index` on are the same before and after the
        // exchange.
        assert forall|e: MoveListEntry| in_suffix(moves, index, e) <==> in_suffix(
            ordered,
            index,
            e,
        ) by {
            if in_suffix(moves, index, e) {
                let j = choose|j: int| index <= j < moves.len() && moves[j] == e;
                if skip_ordering {
                    assert(ordered[j] == e);
                } else if j == index {
                    assert(ordered[best] == e);
                } else if j == best {
                    assert(ordered[index] == e);
                } else {
                    assert(ordered[j] == e);
                }
            }
            if in_suffix(ordered, index, e) {
                let j = choose|j: int| index <= j < ordered.len() && ordered[j] == e;
                if skip_ordering {
                    assert(moves[j] == e);
                } else if j == index {
                    assert(moves[best] == e);
                } else if j == best {
                    assert(moves[index] == e);
                } else {
                    assert(moves[j] == e);
                }
            }
        }
        assert forall|e: MoveListEntry| in_suffix(ordered, index, e) <==> e == ordered[index]
            || in_suffix(ordered, index + 1, e) by {
            if in_suffix(ordered, index, e) {
                let j = choose|j: int| index <= j < ordered.len() && ordered[j] == e;
                if j != index {
                    assert(index + 1 <= j < ordered.len() && ordered[j] == e);
                }
            }
            if in_suffix(ordered, index + 1, e) {
                let j = choose|j: int| index + 1 <= j < ordered.len() && ordered[j] == e;
                assert(index <= j < ordered.len() && ordered[j] == e);
            }
            if e == ordered[index] {
                assert(index <= index < ordered.len() && ordered[index] == e);
            }
        }
        let head = seq![ordered[index]];
        assert forall|e: MoveListEntry| #[trigger] all.contains(e) <==> e.entry != tt && in_suffix(
            moves,
            index,
            e,
        ) by {
            if ordered[index].entry != tt {
                crate::board::movegen::lemma_contains_add(head, rest, e);
                assert(head.contains(e) <==> e == ordered[index]) by {
                    if e == ordered[index] {
                        assert(head[0] == e);
                    }
                }
            }
        }
        if distinct_suffix(moves, index) {
            assert(distinct_suffix(ordered, index)) by {
                assert forall|i: int, j: int| index <= i < j < ordered.len() implies ordered[i]
                    != ordered[j] by {
                    if !skip_ordering {
                        let a = if i == index {
                            best
                        } else if i == best {
                            index
                        } else {
                            i
                        };
                        let b = if j == index {
                            best
                        } else if j == best {
                            index
                        } else {
                            j
                        };
                        assert(ordered[i] == moves[a] && ordered[j] == moves[b] && a != b);
                        if a < b {
                            assert(moves[a] != moves[b]);
                        } else {
                            assert(moves[b] != moves[a]);
                        }
                    }
                }
            }
            assert(distinct_suffix(ordered, index + 1));
            if ordered[index].entry != tt {
                assert forall|i: int, j: int| 0 <= i < head.len() && 0 <= j < rest.len() implies head[i]
                    != rest[j] by {
                    assert(rest.contains(rest[j]));
                    if head[i] == rest[j] {
                        let k = choose|k: int|
                            index + 1 <= k < ordered.len() && ordered[k] == ordered[index];
                        assert(ordered[index] != ordered[k]);
                    }
                }
                vstd::seq_lib::lemma_no_dup_in_concat(head, rest);
            }
        }
    }
}

/// The place of the first pair of `order` that holds `m`, looked for from
/// `from` on; the length of `order` where no pair holds it.
pub open spec fn rank_of_move(order: Seq<(Move, u64)>, m: Move, from: int) -> int
    decreases order.len() - from,
{
    if from < 0 || from >= order.len() {
        order.len() as int
    } else if order[from].0 == m {
        from
    } else {
        rank_of_move(order, m, from + 1)
    }
}

/// The score that `m` has by the order `order`: 256 less its place in the
/// order, and a score below all of these where the order does not hold it.
pub open spec fn rank_score(order: Seq<(Move, u64)>, m: Move) -> int {
    let rank = rank_of_move(order, m, 0);
    if rank < order.len() {
        256 - rank
    } else {
        UNRANKED_SCORE as int
    }
}

/// The entry `e` scored by the order `order`: an entry that is marked as the
/// move from the transposition table keeps its score.
pub open spec fn rescored(order: Seq<(Move, u64)>, e: MoveListEntry) -> MoveListEntry {
    if e.score == TT_MOVE_SCORE {
        e
    } else {
        MoveListEntry { entry: e.entry, score: rank_score(order, e.entry) as i32 }
    }
}

/// The score of `m` by the order `order`.
fn score_in_order(order: &[(Move, u64)], m: Move) -> (score: i32)
    requires
        order@.len() <= i32::MAX,
    ensures
        score == rank_score(order@, m),
{
    let mut i: usize = 0;
    while i < order.len()
        invariant
            i <= order@.len(),
            order@.len() <= i32::MAX,
            rank_of_move(order@, m, 0) == rank_of_move(order@, m, i as int),
        decreases order@.len() - i,
    {
        if order[i].0 == m {
            return 256 - i as i32;
        }
        i += 1;
    }
    UNRANKED_SCORE
}

impl<const CAPTURES_ONLY: bool> MovePicker<CAPTURES_ONLY> {
    /// Whether the picker has handed out no more entries than it has.
    pub open spec fn wf(&self) -> bool {
        self.index <= self.movelist.moves@.len()
    }

    /// The entries that the picker has once the moves of `position` are
    /// generated: those that it has already, where it has generated them;
    /// else its own and then the moves of the position, or with
    /// `CAPTURES_ONLY` the capturing ones, each with the score zero.
    pub open spec fn generated(&self, position: &Board) -> Seq<MoveListEntry> {
        if self.stage == Stage::YieldMoves {
            self.movelist.moves@
        } else {
            self.movelist.moves@ + fresh_all(position.listed_upto(CAPTURES_ONLY, 64))
        }
    }

    /// All that the picker has yet to hand out for `position`, in the order
    /// in which it hands it out: first the move from the transposition table,
    /// where it is yet to be tried and is a move of the position; then the
    /// generated entries but for those that hold that move.
    pub open spec fn remaining(&self, position: &Board) -> Seq<MoveListEntry> {
        let generated = drain(
            self.generated(position),
            self.index as int,
            self.skip_ordering,
            self.tt_move,
        );
        if self.stage == Stage::TTMove && position.pseudo_legal(self.tt_move) {
            seq![MoveListEntry { entry: self.tt_move, score: TT_MOVE_SCORE }] + generated
        } else {
            generated
        }
    }

    /// The picker that tries `tt_move` first.
    pub fn new(tt_move: Move) -> (picker: Self)
        ensures
            picker.movelist.moves@.len() == 0,
            picker.index == 0,
            !picker.skip_ordering,
            picker.tt_move == tt_move,
            picker.stage == Stage::TTMove,
            picker.wf(),
    {
        Self {
            movelist: MoveList::new(),
            index: 0,
            skip_ordering: false,
            tt_move,
            stage: Stage::TTMove,
        }
    }

    /// The entries that were handed out or passed over, in their order.
    pub fn moves_made(&self) -> (made: &[MoveListEntry])
        requires
            self.wf(),
        ensures
            made@ == self.movelist.moves@.subrange(0, self.index as int),
    {
        vstd::slice::slice_subrange(self.movelist.moves.as_slice(), 0, self.index)
    }

    /// From now on the entries are handed out as they stand in the list.
    pub fn skip_ordering(&mut self)
        ensures
            final(self).skip_ordering,
            final(self).movelist == old(self).movelist,
            final(self).index == old(self).index,
            final(self).stage == old(self).stage,
            final(self).tt_move == old(self).tt_move,
    {
        self.skip_ordering = true;
    }

    /// Generates the moves where that is yet to be done.
    fn ensure_generated(&mut self, position: &Board)
        requires
            position.wf(),
        ensures
            final(self).movelist.moves@ == old(self).generated(position),
            final(self).stage == Stage::YieldMoves,
            final(self).index == old(self).index,
            final(self).skip_ordering == old(self).skip_ordering,
            final(self).tt_move == old(self).tt_move,
    {
        if self.stage != Stage::YieldMoves {
            self.stage = Stage::YieldMoves;
            if CAPTURES_ONLY {
                position.generate_captures(&mut self.movelist);
            } else {
                position.generate_moves(&mut self.movelist);
            }
        }
    }

    /// Scores the moves by the order `pre_ordered`. Where the moves are yet to
    /// be generated, they are generated first and the move from the
    /// transposition table is forgotten. Each entry then gets 256 less the
    /// place of its move in `pre_ordered` as its score, and a score below all
    /// of these where its move is not in `pre_ordered`; an entry that is
    /// marked as the move from the transposition table keeps its score.
    pub fn score_by(&mut self, pre_ordered: &[(Move, u64)], position: &Board)
        requires
            position.wf(),
            pre_ordered@.len() <= i32::MAX,
        ensures
            final(self).stage == Stage::YieldMoves,
            final(self).tt_move == if old(self).stage == Stage::YieldMoves {
                old(self).tt_move
            } else {
                Move::spec_null()
            },
            final(self).index == old(self).index,
            final(self).skip_ordering == old(self).skip_ordering,
            final(self).movelist.moves@ == old(self).generated(position).map_values(
                |e: MoveListEntry| rescored(pre_ordered@, e),
            ),
    {
        if self.stage != Stage::YieldMoves {
            self.tt_move = Move::null();
        }
        self.ensure_generated(position);
        let ghost base = self.movelist.moves@;
        let mut i: usize = 0;
        while i < self.movelist.moves.len()
            invariant
                i <= base.len(),
                pre_ordered@.len() <= i32::MAX,
                self.movelist.moves@.len() == base.len(),
                forall|k: int| 0 <= k < i ==> self.movelist.moves@[k] == rescored(pre_ordered@, base[k]),
                forall|k: int| i <= k < base.len() ==> self.movelist.moves@[k] == base[k],
                self.stage == Stage::YieldMoves,
                self.tt_move == if old(self).stage == Stage::YieldMoves {
                    old(self).tt_move
                } else {
                    Move::spec_null()
                },
                self.index == old(self).index,
                self.skip_ordering == old(self).skip_ordering,
            decreases base.len() - i,
        {
            let m = self.movelist.moves[i];
            if m.score != TT_MOVE_SCORE {
                let score = score_in_order(pre_ordered, m.entry);
                self.movelist.moves.set(i, MoveListEntry { entry: m.entry, score });
            }
            i += 1;
        }
        assert(self.movelist.moves@ =~= base.map_values(
            |e: MoveListEntry| rescored(pre_ordered@, e),
        ));
    }

    /// The place of the first entry with the greatest score among those that
    /// are yet to be handed out.
    fn find_best(&self) -> (best: usize)
        requires
            self.index < self.movelist.moves@.len(),
        ensures
            best == best_index(self.movelist.moves@, self.index as int),
            self.index <= best < self.movelist.moves@.len(),
    {
        let count = self.movelist.moves.len();
        let mut best_score = self.movelist.moves[self.index].score;
        let mut best_num = self.index;
        let mut index = self.index + 1;
        while index < count
            invariant
                count == self.movelist.moves@.len(),
                self.index < index <= self.movelist.moves@.len(),
                self.index <= best_num < index,
                best_num == best_upto(self.movelist.moves@, self.index as int, index as int),
                best_score == self.movelist.moves@[best_num as int].score,
            decreases self.movelist.moves@.len() - index,
        {
            let score = self.movelist.moves[index].score;
            if score > best_score {
                best_score = score;
                best_num = index;
            }
            index += 1;
        }
        best_num
    }

    /// Hands out the next entry: see `next`.
    fn advance(&mut self, position: &Board) -> (r: Option<MoveListEntry>)
        requires
            old(self).wf(),
            position.wf(),
        ensures
            final(self).wf(),
            final(self).skip_ordering == old(self).skip_ordering,
            final(self).tt_move == old(self).tt_move,
            if old(self).stage == Stage::TTMove && position.pseudo_legal(old(self).tt_move) {
                &&& r == Some(MoveListEntry { entry: old(self).tt_move, score: TT_MOVE_SCORE })
                &&& final(self).stage == Stage::GenerateMoves
                &&& final(self).movelist.moves@ == old(self).movelist.moves@
                &&& final(self).index == old(self).index
            } else {
                &&& final(self).stage == Stage::YieldMoves
                &&& (final(self).movelist.moves@, final(self).index as int, r) == yield_from(
                    old(self).generated(position),
                    old(self).index as int,
                    old(self).skip_ordering,
                    old(self).tt_move,
                )
            },
    {
        if self.stage == Stage::TTMove {
            self.stage = Stage::GenerateMoves;
            if position.is_pseudo_legal(self.tt_move) {
                return Some(MoveListEntry { entry: self.tt_move, score: TT_MOVE_SCORE });
            }
        }
        self.ensure_generated(position);
        let ghost start = self.movelist.moves@;
        let ghost first = self.index as int;
        loop
            invariant
                self.wf(),
                self.stage == Stage::YieldMoves,
                self.skip_ordering == old(self).skip_ordering,
                self.tt_move == old(self).tt_move,
                start == old(self).generated(position),
                first == old(self).index,
                !(old(self).stage == Stage::TTMove && position.pseudo_legal(old(self).tt_move)),
                yield_from(start, first, self.skip_ordering, self.tt_move) == yield_from(
                    self.movelist.moves@,
                    self.index as int,
                    self.skip_ordering,
                    self.tt_move,
                ),
            decreases self.movelist.moves@.len() - self.index,
        {
            // If we have already tried all moves, return None.
            if self.index == self.movelist.moves.len() {
                return None;
            }
            if !self.skip_ordering {
                // Find the best move in the unsorted portion of the movelist,
                // and swap it with the first unsorted move.
                let best_num = self.find_best();
                let best = self.movelist.moves[best_num];
                let front = self.movelist.moves[self.index];
                self.movelist.moves.set(self.index, best);
                self.movelist.moves.set(best_num, front);
            }
            let m = self.movelist.moves[self.index];
            self.index += 1;
            if m.entry != self.tt_move {
                return Some(m);
            }
        }
    }

    /// Select the next move to try. First the move from the transposition
    /// table, where the position has it as a move; then, the moves once
    /// generated, whatever `yield_from` hands out: the best of the entries
    /// that are left, or with `skip_ordering` the first of them, passing over
    /// the move from the transposition table. None once no entry is left.
    pub fn next(&mut self, position: &Board) -> (r: Option<MoveListEntry>)
        requires
            old(self).wf(),
            position.wf(),
        ensures
            final(self).wf(),
            final(self).skip_ordering == old(self).skip_ordering,
            final(self).tt_move == old(self).tt_move,
            if old(self).stage == Stage::TTMove && position.pseudo_legal(old(self).tt_move) {
                &&& r == Some(MoveListEntry { entry: old(self).tt_move, score: TT_MOVE_SCORE })
                &&& final(self).stage == Stage::GenerateMoves
                &&& final(self).movelist.moves@ == old(self).movelist.moves@
                &&& final(self).index == old(self).index
            } else {
                &&& final(self).stage == Stage::YieldMoves
                &&& (final(self).movelist.moves@, final(self).index as int, r) == yield_from(
                    old(self).generated(position),
                    old(self).index as int,
                    old(self).skip_ordering,
                    old(self).tt_move,
                )
            },
            match r {
                Some(e) => old(self).remaining(position) == seq![e] + final(self).remaining(
                    position,
                ),
                None => old(self).remaining(position).len() == 0 && final(self).remaining(
                    position,
                ).len() == 0,
            },
    {
        let ghost before = *self;
        let r = self.advance(position);
        proof {
            let moves = before.generated(position);
            let n = moves.len() as int;
            if before.stage == Stage::TTMove && position.pseudo_legal(before.tt_move) {
                assert(self.generated(position) =~= moves);
            } else {
                lemma_drain_step(moves, n, before.index as int, before.skip_ordering, before.tt_move);
                assert(self.generated(position) == self.movelist.moves@);
                match r {
                    Some(e) => {
                        assert(before.remaining(position) =~= seq![e] + self.remaining(position));
                    },
                    None => {},
                }
            }
        }
        r
    }
}

/// The moves of the entries `entries`, in their order.
pub open spec fn moves_of(entries: Seq<MoveListEntry>) -> Seq<Move> {
    entries.map_values(|e: MoveListEntry| e.entry)
}

impl<const CAPTURES_ONLY: bool> MovePicker<CAPTURES_ONLY> {
    /// A picker that has handed out nothing yet hands out, from first to last,
    /// just the moves of the position, or with `CAPTURES_ONLY` its capturing
    /// moves, whether or not they leave the king attacked; each of them once;
    /// and the move from the transposition table first, where it is a move of
    /// the position. With `CAPTURES_ONLY` this holds where the move from the
    /// transposition table captures or is no move of the position: one that
    /// does not capture is handed out all the same.
    pub proof fn lemma_enumeration(&self, position: &Board)
        requires
            self.stage == Stage::TTMove,
            self.index == 0,
            self.movelist.moves@.len() == 0,
            position.pseudo_legal(self.tt_move) ==> position.lists(CAPTURES_ONLY, self.tt_move),
        ensures
            forall|m: Move|
                #[trigger] moves_of(self.remaining(position)).contains(m) <==> position.lists(
                    CAPTURES_ONLY,
                    m,
                ),
            moves_of(self.remaining(position)).no_duplicates(),
            position.pseudo_legal(self.tt_move) ==> moves_of(self.remaining(position)).len() > 0
                && moves_of(self.remaining(position))[0] == self.tt_move,
    {
        let tt = self.tt_move;
        let listed = position.listed_upto(CAPTURES_ONLY, 64);
        let generated = self.generated(position);
        assert(generated =~= crate::board::movegen::fresh_all(listed));
        let n = generated.len() as int;
        let rest = drain(generated, 0, self.skip_ordering, tt);
        position.lemma_generated_moves(CAPTURES_ONLY);
        lemma_drain(generated, n, 0, self.skip_ordering, tt);
        assert(distinct_suffix(generated, 0)) by {
            assert forall|i: int, j: int| 0 <= i < j < generated.len() implies generated[i]
                != generated[j] by {
                assert(listed[i] != listed[j]);
            }
        }
        // Every entry that is yet to be handed out is a listed move with the
        // score zero.
        assert forall|k: int| 0 <= k < rest.len() implies (#[trigger] rest[k]).score == 0
            && rest[k].entry != tt && listed.contains(rest[k].entry) by {
            assert(rest.contains(rest[k]));
            let j = choose|j: int| 0 <= j < generated.len() && generated[j] == rest[k];
            assert(listed[j] == rest[k].entry);
        }
        let rest_moves = moves_of(rest);
        assert(rest_moves.no_duplicates()) by {
            assert forall|i: int, j: int|
                0 <= i < rest_moves.len() && 0 <= j < rest_moves.len() && i != j implies rest_moves[i]
                != rest_moves[j] by {
                assert(rest[i] != rest[j]);
            }
        }
        assert forall|m: Move| #[trigger]
            rest_moves.contains(m) <==> m != tt && listed.contains(m) by {
            if rest_moves.contains(m) {
                let k = choose|k: int| 0 <= k < rest_moves.len() && rest_moves[k] == m;
                assert(rest[k].entry == m);
            }
            if m != tt && listed.contains(m) {
                let j = choose|j: int| 0 <= j < listed.len() && listed[j] == m;
                let e = crate::board::movegen::fresh(m);
                assert(generated[j] == e);
                assert(in_suffix(generated, 0, e));
                assert(rest.contains(e));
                let k = choose|k: int| 0 <= k < rest.len() && rest[k] == e;
                assert(rest_moves[k] == m);
            }
        }
        let all = moves_of(self.remaining(position));
        if position.pseudo_legal(tt) {
            let head = seq![tt];
            assert(all =~= head + rest_moves);
            assert forall|m: Move| #[trigger] all.contains(m) <==> position.lists(CAPTURES_ONLY, m) by {
                crate::board::movegen::lemma_contains_add(head, rest_moves, m);
                assert(head.contains(m) <==> m == tt) by {
                    if m == tt {
                        assert(head[0] == m);
                    }
                }
            }
            assert forall|i: int, j: int|
                0 <= i < head.len() && 0 <= j < rest_moves.len() implies head[i] != rest_moves[j] by {
                assert(rest_moves.contains(rest_moves[j]));
            }
            vstd::seq_lib::lemma_no_dup_in_concat(head, rest_moves);
        } else {
            assert(all =~= rest_moves);
        }
    }
}

} // verus!
