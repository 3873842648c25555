use viridithas::board::evaluation::parameters::Parameters;
use viridithas::board::evaluation::score::S;
use viridithas::board::evaluation::KingDangerInfo;
use viridithas::board::Board;
use viridithas::piece::{Colour, Piece};

fn board(fen: &str) -> Board {
    Board::from_fen(fen).unwrap()
}

#[test]
fn lone_minor_is_a_draw_whoever_has_it() {
    for fen in [
        "8/8/4k3/8/8/2N5/8/4K3 w - - 0 1",
        "8/8/4k3/8/8/2N5/8/4K3 b - - 0 1",
        "8/8/4k3/8/8/2B5/8/4K3 w - - 0 1",
        "8/8/4k3/2n5/8/8/8/4K3 w - - 0 1",
        "8/8/4k3/2b5/8/8/8/4K3 b - - 0 1",
        "8/8/4k3/8/8/8/8/4K3 w - - 0 1",
    ] {
        assert_eq!(board(fen).evaluate(), 0, "{fen}");
    }
}

#[test]
fn material_draws_are_recognised() {
    // Two knights against a bare king, rook against rook, rook against two
    // minor pieces.
    for fen in [
        "8/8/4k3/8/8/2NN4/8/4K3 w - - 0 1",
        "8/8/4k3/3r4/8/2R5/8/4K3 w - - 0 1",
        "8/8/4k3/3bn3/8/2R5/8/4K3 b - - 0 1",
        "8/8/4k3/3r4/8/2BN4/8/4K3 b - - 0 1",
    ] {
        let b = board(fen);
        assert!(b.is_material_draw(), "{fen}");
        assert_eq!(b.evaluate(), 0, "{fen}");
    }
    // A queen, or two rooks against none, decide the game.
    for fen in ["8/8/4k3/8/8/2Q5/8/4K3 w - - 0 1", "8/8/4k3/8/8/2RR4/8/4K3 w - - 0 1"] {
        assert!(!board(fen).is_material_draw(), "{fen}");
    }
}

#[test]
fn mirrored_positions_have_negated_scores() {
    let pairs = [
        (
            "r1bqkb1r/pppp1ppp/2n2n2/4p3/2B1P3/5N2/PPPP1PPP/RNBQK2R w KQkq - 0 1",
            "rnbqk2r/pppp1ppp/5n2/2b1p3/4P3/2N2N2/PPPP1PPP/R1BQKB1R w KQkq - 0 1",
        ),
        ("8/k7/8/8/8/8/K6P/8 w - - 0 1", "8/k6p/8/8/8/8/K7/8 w - - 0 1"),
        ("4k3/8/8/3q4/8/2R1B3/PP6/4K3 b - - 0 1", "4k3/pp6/2r1b3/8/3Q4/8/8/4K3 b - - 0 1"),
    ];
    for (fen, mirrored) in pairs {
        let a = board(fen);
        let b = board(mirrored);
        assert_eq!(a.evaluate(), -b.evaluate(), "{fen}");
        assert_eq!(a.pawn_structure_term(), -b.pawn_structure_term(), "{fen}");
        assert_eq!(a.mobility().0, -b.mobility().0, "{fen}");
        assert_eq!(a.rook_open_file_term(), -b.rook_open_file_term(), "{fen}");
        assert_eq!(a.bishop_pair_term(), -b.bishop_pair_term(), "{fen}");
        assert_eq!(a.pst_vals, -b.pst_vals, "{fen}");
        assert_eq!(
            a.mobility().1.attack_units_on_white,
            b.mobility().1.attack_units_on_black,
            "{fen}"
        );
    }
}

#[test]
fn the_side_to_move_sees_the_score_from_its_side() {
    let white = board("4k3/8/8/8/8/8/PPPP4/4K3 w - - 0 1");
    let black = board("4k3/8/8/8/8/8/PPPP4/4K3 b - - 0 1");
    assert!(white.evaluate() > 0);
    assert_eq!(white.evaluate(), -black.evaluate());
}

#[test]
fn pawn_structure_of_a_lone_passer() {
    let params = Parameters::default();
    // The pawn on h2 is isolated and passed, and has advanced no rank.
    let b = board("8/k7/8/8/8/8/K6P/8 w - - 0 1");
    assert_eq!(
        b.pawn_structure_term(),
        params.passed_pawn_bonus[0] - params.isolated_pawn_malus
    );
    assert_eq!(b.pawn_structure_term(), S(-36, -25));
    // On h7 it has advanced five ranks.
    let b = board("8/k6P/8/8/8/8/K7/8 w - - 0 1");
    assert_eq!(b.pawn_structure_term(), S(138 - 19, 169 - 24));
    // A black pawn on h7 has advanced no rank, and counts against White.
    let b = board("8/k6p/8/8/8/8/K7/8 w - - 0 1");
    assert_eq!(b.pawn_structure_term(), S(36, 25));
}

#[test]
fn a_pawn_is_not_passed_with_an_enemy_pawn_before_it() {
    // White e4 against black d6: the black pawn stands before the white one
    // on a neighbouring file. Both are isolated, neither is passed.
    let b = board("4k3/8/3p4/8/4P3/8/8/4K3 w - - 0 1");
    assert_eq!(b.pawn_structure_term(), S(0, 0));
    // With the black pawn behind, on d3, both are passed: White's has
    // advanced two ranks, Black's four.
    let b = board("4k3/8/8/8/4P3/3p4/8/4K3 w - - 0 1");
    let params = Parameters::default();
    assert_eq!(
        b.pawn_structure_term(),
        params.passed_pawn_bonus[2] - params.passed_pawn_bonus[4]
    );
}

#[test]
fn three_pawns_on_a_file_count_twice_doubled() {
    let params = Parameters::default();
    let b = board("4k3/8/8/8/4P3/4P3/4P3/4K3 w - - 0 1");
    // Each is isolated, each is passed: ranks 2, 3 and 4.
    let expected = params.passed_pawn_bonus[0] + params.passed_pawn_bonus[1]
        + params.passed_pawn_bonus[2]
        - params.isolated_pawn_malus * 3
        - params.doubled_pawn_malus * 2;
    assert_eq!(b.pawn_structure_term(), expected);
}

#[test]
fn bishop_pair_counts_for_the_side_that_has_it() {
    let bonus = Parameters::default().bishop_pair_bonus;
    assert_eq!(board("4k3/8/8/8/8/8/8/2B1KB2 w - - 0 1").bishop_pair_term(), bonus);
    assert_eq!(board("2b1kb2/8/8/8/8/8/8/4K3 w - - 0 1").bishop_pair_term(), -bonus);
    assert_eq!(board("2b1kb2/8/8/8/8/8/8/2B1KB2 w - - 0 1").bishop_pair_term(), S(0, 0));
    assert_eq!(board("2b1k3/8/8/8/8/8/8/2B1KB2 w - - 0 1").bishop_pair_term(), bonus);
    assert_eq!(board("4k3/8/8/8/8/8/8/2B1K3 w - - 0 1").bishop_pair_term(), S(0, 0));
}

#[test]
fn rooks_and_queens_on_open_and_half_open_files() {
    let params = Parameters::default();
    // White rook on the open a-file, black rook on the h-file behind a white
    // pawn: half-open for Black.
    let b = board("4k2r/8/8/8/8/8/7P/R3K3 w - - 0 1");
    assert!(b.is_file_open(0));
    assert!(!b.is_file_open(7));
    assert_eq!(
        b.rook_open_file_term(),
        params.rook_open_file_bonus - params.rook_half_open_file_bonus
    );
    // A white queen behind its own pawn gets nothing, one on a file with a
    // black pawn only gets the smaller bonus.
    let b = board("4k3/7p/8/8/8/8/P7/Q3K2Q w - - 0 1");
    assert_eq!(b.queen_open_file_term(), params.queen_half_open_file_bonus);
    assert_eq!(b.rook_open_file_term(), S(0, 0));
}

#[test]
fn mobility_of_a_knight_in_the_corner() {
    let params = Parameters::default();
    // The knight on a1 attacks b3 and c2.
    let b = board("4k3/8/8/8/8/8/8/N3K3 w - - 0 1");
    let (mobility, danger) = b.mobility();
    assert_eq!(mobility, params.knight_mobility_bonus[2]);
    assert_eq!(
        danger,
        KingDangerInfo { attack_units_on_white: 0, attack_units_on_black: 0 }
    );
    // With a black pawn on a4, b3 is no longer safe.
    let b = board("4k3/8/8/8/p7/8/8/N3K3 w - - 0 1");
    assert_eq!(b.mobility().0, params.knight_mobility_bonus[1]);
}

#[test]
fn king_danger_counts_attacks_on_the_king_area() {
    // The white rook on e4 attacks e5, e6, e7 and e8 on its file; of these
    // e7 and e6 lie in the area of the black king on e8 (d8, f8, d7, e7, f7
    // and, one rank on, d6, e6, f6). A rook counts 3 a square.
    let b = board("4k3/8/8/8/4R3/8/8/K7 w - - 0 1");
    let (_, danger) = b.mobility();
    assert_eq!(danger.attack_units_on_black, 6);
    assert_eq!(danger.attack_units_on_white, 0);
    // 34 * 36 + 179 * 6 - 748 = 1550, and 1550 / 100 = 15; for no unit
    // -748 / 100 = -7. The difference is 22, and half of it in the endgame.
    assert_eq!(b.score_kingdanger(danger), S(22, 11));
}

#[test]
fn king_danger_is_capped() {
    let b = Board::default();
    let danger = KingDangerInfo { attack_units_on_white: -5, attack_units_on_black: 1000 };
    // 99 units give far more than 500, which is the cap; fewer than none
    // count as none.
    assert_eq!(b.score_kingdanger(danger), S(507, 253));
}

#[test]
fn phase_of_positions() {
    assert_eq!(Board::default().phase(), 0);
    assert_eq!(board("8/k7/8/8/8/8/K6P/8 w - - 0 1").phase(), 255);
    assert_eq!(board("4k3/8/8/8/4R3/8/8/K7 w - - 0 1").phase(), 236);
}

#[test]
fn zugzwang_is_likely_without_pieces() {
    assert!(Board::default().zugzwang_unlikely());
    // Pawns only.
    assert!(!board("4k3/pppp4/8/8/8/8/PPPP4/4K3 w - - 0 1").zugzwang_unlikely());
    // A rook, but the phase is that of a late endgame.
    assert!(!board("4k3/8/8/8/4R3/8/8/K7 w - - 0 1").zugzwang_unlikely());
    // The side to move counts: White has a queen and a rook, Black has none.
    assert!(board("4k3/pppppppp/8/8/8/8/PPPPPPPP/QR2K3 w - - 0 1").zugzwang_unlikely());
    assert!(!board("4k3/pppppppp/8/8/8/8/PPPPPPPP/QR2K3 b - - 0 1").zugzwang_unlikely());
}

#[test]
fn material_and_piece_square_totals() {
    let params = Parameters::default();
    let b = board("4k3/8/8/8/4R3/8/8/K7 w - - 0 1");
    assert_eq!(b.material[0], params.piece_values[3]);
    assert_eq!(b.material[1], S(0, 0));
    assert_eq!(b.num(Piece::WR), 1);
    assert!(b.unwinnable_for::<1>());
    assert!(!b.unwinnable_for::<0>());
    assert_eq!(b.king_sq(Colour::White), 0);
}

#[test]
fn set_eval_params_counts_material_anew() {
    let mut b = board("4k3/8/8/8/4R3/8/8/K7 w - - 0 1");
    let mut params = Parameters::default();
    params.piece_values[3] = S(500, 600);
    b.set_eval_params(params);
    assert_eq!(b.material[0], S(500, 600));
}

#[test]
fn clamp_leaves_a_winnable_advantage() {
    let b = board("4k3/8/8/8/4R3/8/8/K7 w - - 0 1");
    assert_eq!(b.preprocess_drawish_scores(150), 150);
    // Black has a bare king: a score in its favour is clamped.
    assert_eq!(b.preprocess_drawish_scores(-150), 0);
    assert_eq!(b.preprocess_drawish_scores(0), 0);
}

#[test]
fn two_pairs_of_bishops_cancel() {
    // Both sides have two or more bishops: neither gets the bonus, however
    // many more one of them has.
    assert_eq!(board("1bb1k3/8/8/8/8/8/8/1BBBK3 w - - 0 1").bishop_pair_term(), S(0, 0));
    assert_eq!(board("1bbbk3/8/8/8/8/8/8/1BB1K3 w - - 0 1").bishop_pair_term(), S(0, 0));
    // One pair against three bishops with queens on the board, and its
    // mirror.
    let a = board("1bbbk2q/8/8/8/8/8/8/1BB1K2Q w - - 0 1");
    let b = board("1bb1k2q/8/8/8/8/8/8/1BBBK2Q w - - 0 1");
    assert_eq!(a.bishop_pair_term(), -b.bishop_pair_term());
    assert_eq!(a.evaluate(), -b.evaluate());
}

#[test]
fn a_file_without_pawns_is_not_half_open() {
    let b = board("4k2r/8/8/8/8/8/7P/R3K3 w - - 0 1");
    // The a-file holds no pawn: it is open, and half-open for neither side.
    assert!(b.is_file_open(0));
    assert!(!b.is_file_halfopen::<0>(0));
    assert!(!b.is_file_halfopen::<1>(0));
    // The h-file holds a white pawn only: it is half-open for Black.
    assert!(!b.is_file_open(7));
    assert!(b.is_file_halfopen::<1>(7));
    assert!(!b.is_file_halfopen::<0>(7));
    // With pawns of both sides it is neither.
    let b = board("4k3/7p/8/8/8/8/7P/4K3 w - - 0 1");
    assert!(!b.is_file_open(7));
    assert!(!b.is_file_halfopen::<0>(7));
    assert!(!b.is_file_halfopen::<1>(7));
}

#[test]
fn the_phase_of_a_board_is_never_below_zero() {
    // Nine queens, two rooks, two bishops and two knights a side.
    let b = board("rnbqkbnr/qqqqqqqq/8/8/8/8/QQQQQQQQ/RNBQKBNR w - - 0 1");
    assert_eq!(b.phase(), 0);
    assert_eq!(b.evaluate(), 0);
}

#[test]
fn an_advanced_passer_is_not_always_worth_more() {
    // With queens on the board the step from the second to the third rank
    // costs more in the midgame than it brings in the endgame.
    let before = board("q3k2q/8/8/8/8/8/2P5/Q3K2Q w - - 0 1");
    let after = board("q3k2q/8/8/8/8/2P5/8/Q3K2Q w - - 0 1");
    assert_eq!(before.evaluate(), 85);
    assert_eq!(after.evaluate(), 83);
}

#[test]
fn an_advanced_passer_is_worth_the_difference_of_the_bonuses_more() {
    let params = Parameters::default();
    for (nearer, further, rank) in [
        ("8/k7/8/8/8/8/K6P/8 w - - 0 1", "8/k7/8/8/8/7P/K7/8 w - - 0 1", 0),
        ("8/k7/8/8/8/7P/K7/8 w - - 0 1", "8/k7/8/8/7P/8/K7/8 w - - 0 1", 1),
        ("8/k7/8/7P/8/8/K7/8 w - - 0 1", "8/k7/7P/8/8/8/K7/8 w - - 0 1", 3),
    ] {
        let a = board(nearer);
        let b = board(further);
        assert_eq!(
            b.pawn_structure_term() - a.pawn_structure_term(),
            params.passed_pawn_bonus[rank + 1] - params.passed_pawn_bonus[rank]
        );
    }
    // For Black the ranks are counted from the other side.
    let a = board("8/k6p/8/8/8/8/K7/8 w - - 0 1");
    let b = board("8/k7/7p/8/8/8/K7/8 w - - 0 1");
    assert_eq!(
        a.pawn_structure_term() - b.pawn_structure_term(),
        params.passed_pawn_bonus[1] - params.passed_pawn_bonus[0]
    );
}
