use viridithas::board::evaluation::parameters::Parameters;
use viridithas::board::evaluation::score::S;
use viridithas::board::Board;
use viridithas::chessmove::{Move, MoveFlag};
use viridithas::definitions::Depth;
use viridithas::definitions::{BLACK, WHITE};
use viridithas::errors::{FenParseError, MoveParseError};
use viridithas::piece::{Colour, Piece, PieceType};
use viridithas::searchinfo::{SearchInfo, SearchLimit};
use viridithas::text::{parse_i32, parse_i64, parse_u64, split_words, word_is};
use viridithas::uci::{
    parse_go, parse_position, parse_setoption, setoption_is_accepted, SetOptions, UciError,
};
use viridithas::uci::{format_score, is_multipv};

#[test]
fn centipawn_scores_are_written_in_decimal() {
    assert_eq!(format_score(0, WHITE), "cp 0");
    assert_eq!(format_score(23, WHITE), "cp 23");
    assert_eq!(format_score(-23, BLACK), "cp -23");
    assert_eq!(format_score(1_000, BLACK), "cp 1000");
    assert_eq!(format_score(2_999_871, WHITE), "cp 2999871");
    assert_eq!(format_score(-2_999_871, WHITE), "cp -2999871");
}

#[test]
fn mate_scores_are_written_in_moves() {
    // Mate in one ply is mate in one move, in two plies too; in three plies
    // it is mate in two.
    assert_eq!(format_score(3_000_000 - 1, WHITE), "mate 1");
    assert_eq!(format_score(3_000_000 - 2, WHITE), "mate 1");
    assert_eq!(format_score(3_000_000 - 3, WHITE), "mate 2");
    assert_eq!(format_score(-(3_000_000 - 1), BLACK), "mate -1");
    assert_eq!(format_score(-(3_000_000 - 4), BLACK), "mate -2");
    assert_eq!(format_score(3_000_000, WHITE), "mate 0");
    assert_eq!(format_score(-3_000_000, WHITE), "mate -0");
    assert_eq!(format_score(2_999_872, WHITE), "mate 64");
}

#[test]
fn multipv_is_more_than_one_line() {
    assert!(!is_multipv(0));
    assert!(!is_multipv(1));
    assert!(is_multipv(2));
    assert!(is_multipv(500));
}


fn word(s: &str) -> Vec<u8> {
    s.as_bytes().to_vec()
}

#[test]
fn words_are_split_at_white_space() {
    let words = split_words(b"  go\twtime 100\r\n btime\x0c200  ");
    let expected: Vec<Vec<u8>> =
        ["go", "wtime", "100", "btime", "200"].iter().map(|s| word(s)).collect();
    assert_eq!(words, expected);
    assert!(split_words(b"").is_empty());
    assert!(split_words(b" \t\n").is_empty());
    assert_eq!(split_words(b"x"), vec![word("x")]);
    assert!(word_is(&word("moves"), "moves"));
    assert!(!word_is(&word("move"), "moves"));
    assert!(!word_is(&word("movez"), "moves"));
}

#[test]
fn numbers_are_read_as_the_standard_library_reads_them() {
    for text in [
        "0", "7", "+7", "-7", "007", "-0", "+0", "18446744073709551615", "18446744073709551616",
        "9223372036854775807", "9223372036854775808", "-9223372036854775808",
        "-9223372036854775809", "2147483647", "2147483648", "-2147483648", "-2147483649", "", "+",
        "-", "1e3", "12a", "a12", " 1", "1 ", "--1", "+-1", "99999999999999999999999999",
        "0x10", "1_000",
    ] {
        assert_eq!(parse_u64(&word(text)), text.parse::<u64>().ok(), "{text}");
        assert_eq!(parse_i64(&word(text)), text.parse::<i64>().ok(), "{text}");
        assert_eq!(parse_i32(&word(text)), text.parse::<i32>().ok(), "{text}");
    }
}

#[test]
fn position_startpos_sets_the_initial_position() {
    let mut pos = Board::from_fen("8/k7/8/8/8/8/K6P/8 w - - 0 1").unwrap();
    assert_eq!(parse_position("position startpos", &mut pos), Ok(()));
    assert_eq!(pos.piece_array, Board::default().piece_array);
    assert_eq!(pos.turn(), Colour::White);
    assert_eq!(pos.height, 0);
    assert!(pos.history.is_empty());
}

#[test]
fn position_plays_the_moves() {
    let mut pos = Board::default();
    let text = "position startpos moves e2e4 e7e5 g1f3 b8c6 f1b5 a7a6 b5c6 d7c6 e1g1";
    assert_eq!(parse_position(text, &mut pos), Ok(()));
    assert_eq!(pos.piece_at(6), Piece::WK);
    assert_eq!(pos.piece_at(5), Piece::WR);
    assert_eq!(pos.piece_at(42), Piece::BP);
    assert_eq!(pos.turn(), Colour::Black);
    assert_eq!(pos.height, 0);
    assert_eq!(pos.history.len(), 9);
    assert_eq!(pos.history[6].capture, Piece::BN);
    assert_eq!(pos.history[8].m, Move::new_with_flag(4, 6, MoveFlag::Castle));
    assert_eq!(pos.castle_perm, 4 | 8);
}

#[test]
fn position_reads_a_fen_and_moves() {
    let mut pos = Board::default();
    let text = "position fen 4k3/P7/8/8/8/8/8/4K3 w - - 0 1 moves a7a8q e8e7";
    assert_eq!(parse_position(text, &mut pos), Ok(()));
    assert_eq!(pos.piece_at(56), Piece::WQ);
    assert_eq!(pos.piece_at(52), Piece::BK);
    assert_eq!(pos.history[0].m, Move::new_with_promo(48, 56, PieceType::Queen));
    let mut pos = Board::default();
    assert_eq!(parse_position("position fen 4k3/P7/8/8/8/8/8/4K3 b - -", &mut pos), Ok(()));
    assert_eq!(pos.turn(), Colour::Black);
    assert_eq!(pos.num(Piece::WP), 1);
}

#[test]
fn position_keeps_the_constants_of_the_evaluation() {
    let mut pos = Board::default();
    let mut params = pos.eval_params;
    params.piece_values[0] = viridithas::board::evaluation::score::S(100, 200);
    pos.set_eval_params(params);
    assert_eq!(parse_position("position startpos moves e2e4", &mut pos), Ok(()));
    assert_eq!(pos.eval_params.piece_values[0], params.piece_values[0]);
    assert_eq!(pos.material[0].0, 8 * 100 + 2 * 360 + 2 * 327 + 2 * 488 + 1087);
}

#[test]
fn position_errors_leave_the_board_alone() {
    let cases = [
        ("", UciError::UnexpectedCommandTermination),
        ("   ", UciError::UnexpectedCommandTermination),
        ("position", UciError::UnexpectedCommandTermination),
        ("posit startpos", UciError::InvalidFormat),
        ("position start", UciError::InvalidFormat),
        ("position startpos e2e4", UciError::InvalidFormat),
        ("position fen", UciError::ParseFen(FenParseError::Placement)),
        ("position fen 8/8/8/8/8/8/8/8 w - -", UciError::ParseFen(FenParseError::Position)),
        ("position fen 4k3/8/8/8/8/8/8/4K3 x - -", UciError::ParseFen(FenParseError::SideToMove)),
        ("position fen 4k3/8/8/8/8/8/8/4K3 w", UciError::ParseFen(FenParseError::Castling)),
        ("position fen 4k3/8/8/8/8/8/8/4K3 w - e9", UciError::ParseFen(FenParseError::EnPassant)),
        ("position startpos moves e2e5", UciError::ParseMove(MoveParseError::IllegalMove)),
        ("position startpos moves e2e4 e2e4", UciError::ParseMove(MoveParseError::IllegalMove)),
        ("position startpos moves e2e", UciError::ParseMove(MoveParseError::InvalidLength)),
        ("position startpos moves e2e4e5", UciError::ParseMove(MoveParseError::InvalidLength)),
        ("position startpos moves i2e4", UciError::ParseMove(MoveParseError::InvalidFromSquare)),
        ("position startpos moves e2e9", UciError::ParseMove(MoveParseError::InvalidToSquare)),
        ("position startpos moves e2e4k", UciError::ParseMove(MoveParseError::InvalidPromotionPiece)),
        ("position startpos moves e2e4q", UciError::ParseMove(MoveParseError::IllegalMove)),
        (
            "position fen 4r1k1/8/8/8/8/8/4N3/4K3 w - - moves e2c3",
            UciError::ParseMove(MoveParseError::IllegalMove),
        ),
        (
            "position fen 4k3/P7/8/8/8/8/8/4K3 w - - moves a7a8",
            UciError::ParseMove(MoveParseError::IllegalMove),
        ),
    ];
    for (text, error) in cases {
        let mut pos = Board::from_fen("8/k7/8/8/8/8/K6P/8 w - - 0 1").unwrap();
        assert_eq!(parse_position(text, &mut pos), Err(error), "{text}");
        assert_eq!(pos.piece_at(15), Piece::WP, "{text}");
        assert_eq!(pos.num(Piece::WP), 1, "{text}");
    }
}

#[test]
fn parse_uci_names_moves() {
    let board = Board::default();
    assert_eq!(board.parse_uci(&word("e2e4")), Ok(Move::new(12, 28)));
    assert_eq!(board.parse_uci(&word("g1f3")), Ok(Move::new(6, 21)));
    assert_eq!(board.parse_uci(&word("e7e5")), Err(MoveParseError::IllegalMove));
    let board = Board::from_fen("r3k2r/8/8/8/8/8/8/R3K2R w KQkq - 0 1").unwrap();
    assert_eq!(
        board.parse_uci(&word("e1c1")),
        Ok(Move::new_with_flag(4, 2, MoveFlag::Castle))
    );
    let board =
        Board::from_fen("rnbqkbnr/ppp1pppp/8/8/3pP3/8/PPPP1PPP/RNBQKBNR b KQkq e3 0 1").unwrap();
    assert_eq!(
        board.parse_uci(&word("d4e3")),
        Ok(Move::new_with_flag(27, 20, MoveFlag::EnPassant))
    );
}

fn go(text: &str, side: Colour, before: SearchLimit) -> (SearchLimit, Result<(), UciError>) {
    let fen = match side {
        Colour::White => "4k3/8/8/8/8/8/8/4K3 w - - 0 1",
        Colour::Black => "4k3/8/8/8/8/8/8/4K3 b - - 0 1",
    };
    let pos = Board::from_fen(fen).unwrap();
    let mut info = SearchInfo { limit: before, quit: false };
    let r = parse_go(text, &mut info, &pos);
    assert!(!info.quit);
    (info.limit, r)
}

#[test]
fn go_sets_plain_limits() {
    let before = SearchLimit::Nodes(5);
    assert_eq!(go("go", Colour::White, before), (before, Ok(())));
    assert_eq!(go("go infinite", Colour::White, before), (SearchLimit::Infinite, Ok(())));
    assert_eq!(
        go("go depth 12", Colour::White, before),
        (SearchLimit::Depth(Depth::new(12)), Ok(()))
    );
    assert_eq!(go("go movetime 1500", Colour::Black, before), (SearchLimit::Time(1500), Ok(())));
    assert_eq!(go("go nodes 100000", Colour::White, before), (SearchLimit::Nodes(100000), Ok(())));
    // The time for the move goes before the depth, the depth before the
    // number of positions, and each before `infinite`.
    assert_eq!(
        go("go nodes 9 depth 3 infinite movetime 20", Colour::White, before),
        (SearchLimit::Time(20), Ok(()))
    );
    assert_eq!(
        go("go infinite nodes 9 depth 3", Colour::White, before),
        (SearchLimit::Depth(Depth::new(3)), Ok(()))
    );
    // Of two values the later one stands.
    assert_eq!(
        go("go depth 3 depth -4", Colour::White, before),
        (SearchLimit::Depth(Depth::new(-4)), Ok(()))
    );
}

#[test]
fn go_reads_the_clocks_for_the_side_to_move() {
    let before = SearchLimit::Infinite;
    let text = "go wtime 60000 btime 50000 winc 1000 binc 2000 movestogo 30";
    assert_eq!(
        go(text, Colour::White, before),
        (
            SearchLimit::Dynamic {
                our_clock: 60000,
                their_clock: 50000,
                our_inc: 1000,
                their_inc: 2000,
                moves_to_go: Some(30),
            },
            Ok(())
        )
    );
    assert_eq!(
        go(text, Colour::Black, before),
        (
            SearchLimit::Dynamic {
                our_clock: 50000,
                their_clock: 60000,
                our_inc: 2000,
                their_inc: 1000,
                moves_to_go: Some(30),
            },
            Ok(())
        )
    );
    // A clock that has run out counts as empty; increments may be missing;
    // the clocks go before every other limit.
    assert_eq!(
        go("go depth 5 btime 10 wtime -30", Colour::White, before),
        (
            SearchLimit::Dynamic {
                our_clock: 0,
                their_clock: 10,
                our_inc: 0,
                their_inc: 0,
                moves_to_go: None,
            },
            Ok(())
        )
    );
}

#[test]
fn go_refuses_what_it_cannot_read() {
    let before = SearchLimit::Nodes(5);
    assert_eq!(go("", Colour::White, before), (before, Err(UciError::UnexpectedCommandTermination)));
    assert_eq!(go("stop", Colour::White, before), (before, Err(UciError::InvalidFormat)));
    assert_eq!(go("go deep 3", Colour::White, before), (before, Err(UciError::InvalidFormat)));
    assert_eq!(go("go depth", Colour::White, before), (before, Err(UciError::InvalidFormat)));
    assert_eq!(go("go depth x", Colour::White, before), (before, Err(UciError::InvalidFormat)));
    assert_eq!(go("go movetime -1", Colour::White, before), (before, Err(UciError::InvalidFormat)));
    assert_eq!(
        go("go depth 2147483648", Colour::White, before),
        (before, Err(UciError::InvalidFormat))
    );
    // `infinite` is taken in before what follows fails.
    assert_eq!(
        go("go infinite depth", Colour::White, before),
        (SearchLimit::Infinite, Err(UciError::InvalidFormat))
    );
    assert_eq!(
        go("go depth infinite", Colour::White, before),
        (before, Err(UciError::InvalidFormat))
    );
    // One clock, or an increment without clocks, is not enough; the plain
    // limit is set all the same.
    assert_eq!(
        go("go wtime 1000 depth 4", Colour::White, before),
        (SearchLimit::Depth(Depth::new(4)), Err(UciError::InvalidFormat))
    );
    assert_eq!(go("go binc 5", Colour::Black, before), (before, Err(UciError::InvalidFormat)));
}

#[test]
fn setoption_sets_known_options() {
    let pre = SetOptions {
        eval_params: Parameters::default(),
        hash_mb: None,
        threads: Some(2),
        multi_pv: None,
    };
    assert_eq!(
        parse_setoption("setoption name Hash value 64", pre),
        Ok(SetOptions { hash_mb: Some(64), ..pre })
    );
    assert_eq!(
        parse_setoption("setoption name Threads value 512", pre),
        Ok(SetOptions { threads: Some(512), ..pre })
    );
    assert_eq!(
        parse_setoption("setoption name MultiPV value 3", pre),
        Ok(SetOptions { multi_pv: Some(3), ..pre })
    );
    assert_eq!(parse_setoption("setoption name Ponder value true", pre), Ok(pre));
    assert_eq!(parse_setoption("setoption name Hash value many", pre), Err(UciError::ParseOption));
    assert_eq!(parse_setoption("setoption", pre), Err(UciError::UnexpectedCommandTermination));
    assert_eq!(parse_setoption("setoption name", pre), Err(UciError::UnexpectedCommandTermination));
    assert_eq!(
        parse_setoption("setoption name Hash value", pre),
        Err(UciError::UnexpectedCommandTermination)
    );
}

#[test]
fn setoption_is_checked_before_it_is_carried_out() {
    assert!(setoption_is_accepted("setoption name Hash value 1"));
    assert!(setoption_is_accepted("setoption name Hash value 8192"));
    assert!(!setoption_is_accepted("setoption name Hash value 8193"));
    assert!(!setoption_is_accepted("setoption name Hash value 0"));
    assert!(setoption_is_accepted("setoption name Hash value x"));
    assert!(!setoption_is_accepted("setoption name Threads value 513"));
    assert!(setoption_is_accepted("setoption name MultiPV value 500"));
    assert!(!setoption_is_accepted("setoption name MultiPV value 501"));
    assert!(setoption_is_accepted("setoption name Other value 100000"));
    assert!(!setoption_is_accepted("setoption nam Hash value 1"));
    assert!(!setoption_is_accepted("setoption name Hash"));
    assert!(!setoption_is_accepted("setoption name Hash valu 1"));
    assert!(setoption_is_accepted("setoption"));
    assert!(setoption_is_accepted("setoption name"));
    assert!(setoption_is_accepted("setoption name Hash value"));
    assert!(!setoption_is_accepted(""));
}

#[test]
fn setoption_sets_constants_of_the_evaluation() {
    let pre = SetOptions {
        eval_params: Parameters::default(),
        hash_mb: None,
        threads: None,
        multi_pv: None,
    };
    let out = parse_setoption("setoption name BISHOP_PAIR_BONUS_EG value 120", pre).unwrap();
    assert_eq!(out.eval_params.bishop_pair_bonus, S(60, 120));
    let mut expected = pre;
    expected.eval_params.bishop_pair_bonus = S(60, 120);
    assert_eq!(out, expected);
    let out = parse_setoption("setoption name QUEEN_MOBILITY_BONUS_27_MG value -5", pre).unwrap();
    assert_eq!(out.eval_params.queen_mobility_bonus[27], S(-5, 145));
    let out = parse_setoption("setoption name KING_DANGER_COEFFS_2 value -10000", pre).unwrap();
    assert_eq!(out.eval_params.king_danger_coeffs, [34, 179, -10000]);
    assert_eq!(
        parse_setoption("setoption name KING_DANGER_COEFFS_2 value -10001", pre),
        Err(UciError::InvalidFormat)
    );
    assert_eq!(
        parse_setoption("setoption name BISHOP_PAIR_BONUS_EG value 30001", pre),
        Err(UciError::InvalidFormat)
    );
    assert_eq!(
        parse_setoption("setoption name BISHOP_PAIR_BONUS_EG value much", pre),
        Err(UciError::InvalidFormat)
    );
    // A name that is almost one of a constant is passed over.
    assert_eq!(parse_setoption("setoption name BISHOP_PAIR_BONUS value 1", pre), Ok(pre));
    assert_eq!(parse_setoption("setoption name QUEEN_MOBILITY_BONUS_28_MG value 1", pre), Ok(pre));
    assert!(setoption_is_accepted("setoption name BISHOP_PAIR_BONUS_EG value 0"));
}
