//! The core of a chess engine: the evaluation of a position, the ordering of
//! its moves by what earlier searches have learned, and the state that each
//! worker of a search keeps, together with the position itself, its moves
//! and the commands by which the engine is driven.

pub mod bits;
pub mod board;
pub mod chessmove;
pub mod definitions;
pub mod errors;
pub mod historytable;
pub mod lookups;
pub mod makemove;
pub mod nnue;
pub mod piece;
pub mod piecesquaretable;
pub mod search;
pub mod searchinfo;
pub mod text;
pub mod threadlocal;
pub mod uci;
