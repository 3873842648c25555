use crate::chessmove::Move;
use vstd::prelude::*;

verus! {

/// A principal variation: the line of play that a search expects, and its
/// score.
#[derive(Debug)]
pub struct PVariation {
    /// The score of the line.
    pub score: i32,
    /// The moves of the line, the first to be played first.
    pub line: Vec<Move>,
}

impl PVariation {
    /// Whether the variation holds no move and the score zero.
    pub open spec fn is_empty(&self) -> bool {
        self.score == 0 && self.line@.len() == 0
    }
}

impl Default for PVariation {
    fn default() -> (pv: PVariation)
        ensures
            pv.is_empty(),
    {
        PVariation { score: 0, line: Vec::new() }
    }
}

impl Clone for PVariation {
    fn clone(&self) -> (pv: PVariation)
        ensures
            pv.score == self.score,
            pv.line@ == self.line@,
    {
        let mut line: Vec<Move> = Vec::new();
        let mut i: usize = 0;
        while i < self.line.len()
            invariant
                i <= self.line@.len(),
                line@ == self.line@.subrange(0, i as int),
            decreases self.line@.len() - i,
        {
            line.push(self.line[i]);
            assert(self.line@.subrange(0, i + 1) =~= self.line@.subrange(0, i as int).push(
                self.line@[i as int],
            ));
            i += 1;
        }
        assert(self.line@.subrange(0, i as int) =~= self.line@);
        PVariation { score: self.score, line }
    }
}

} // verus!
