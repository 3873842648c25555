use viridithas::board::evaluation::parameters::{
    param_bound, param_id, param_index, ParameterError, Parameters, PARAM_COUNT,
};
use viridithas::board::evaluation::score::S;
use viridithas::board::evaluation::{game_phase, is_mate_score, king_area, lerp};

#[test]
fn paired_score_arithmetic() {
    assert_eq!(S(1, 2) + S(3, 4), S(4, 6));
    assert_eq!(S(1, 2) - S(3, 5), S(-2, -3));
    assert_eq!(-S(7, -9), S(-7, 9));
    assert_eq!(S(3, -4) * 5, S(15, -20));
    assert_eq!(S::from(12), S(12, 12));
    assert_eq!(S::null(), S(0, 0));
}

#[test]
fn lerp_blends_by_phase() {
    assert_eq!(lerp(100, 200, 0), 100);
    assert_eq!(lerp(100, 200, 256), 200);
    assert_eq!(lerp(100, 200, 128), 150);
    assert_eq!(lerp(100, 200, 64), 125);
    // 100 * 255 / 256 = 99 and 200 * 1 / 256 = 0
    assert_eq!(lerp(100, 200, 1), 99);
}

#[test]
fn lerp_rounds_toward_zero() {
    // -100 * 255 / 256 = -99 and -200 * 1 / 256 = 0
    assert_eq!(lerp(-100, -200, 1), -99);
    assert_eq!(lerp(-1, -1, 128), 0);
    assert_eq!(lerp(1, 1, 128), 0);
}

#[test]
fn lerp_clamps_phase_above_256() {
    assert_eq!(lerp(100, 200, 1000), 200);
    assert_eq!(lerp(-7, 9, 257), 9);
}

#[test]
fn lerp_is_odd_in_the_score() {
    for t in [0, 1, 17, 128, 255, 256] {
        for (mg, eg) in [(13, -250), (1001, 77), (-5, -6)] {
            assert_eq!(lerp(-mg, -eg, t), -lerp(mg, eg, t));
        }
    }
}

#[test]
fn value_is_lerp_of_the_parts() {
    assert_eq!(S(100, 200).value(64), 125);
    assert_eq!(S(-30, 70).value(256), 70);
}

#[test]
fn game_phase_of_known_material() {
    assert_eq!(game_phase(16, 4, 4, 4, 2), 0);
    assert_eq!(game_phase(0, 0, 0, 0, 0), 256);
    assert_eq!(game_phase(3, 0, 0, 2, 0), 213);
    assert_eq!(game_phase(1, 1, 1, 1, 1), 256 - 81);
    assert_eq!(game_phase(0, 0, 0, 0, 6), 16);
}

#[test]
fn game_phase_stays_between_0_and_256() {
    assert_eq!(game_phase(0, 0, 0, 0, 7), 0);
    assert_eq!(game_phase(0, 0, 0, 0, 9), 0);
    assert_eq!(game_phase(16, 4, 4, 4, 3), 0);
    assert_eq!(game_phase(255, 255, 255, 255, 255), 0);
    for q in 0..=20u8 {
        for r in 0..=20u8 {
            let phase = game_phase(3, 2, 1, r, q);
            assert!((0..=256).contains(&phase));
        }
    }
}

#[test]
fn game_phase_never_falls_when_a_piece_leaves() {
    for p in 0..=8u8 {
        for n in 0..=2u8 {
            for r in 0..=2u8 {
                for q in 0..=2u8 {
                    let here = game_phase(p + 1, n + 1, 2, r + 1, q + 1);
                    assert!(game_phase(p, n + 1, 2, r + 1, q + 1) >= here);
                    assert!(game_phase(p + 1, n, 2, r + 1, q + 1) >= here);
                    assert!(game_phase(p + 1, n + 1, 1, r + 1, q + 1) >= here);
                    assert!(game_phase(p + 1, n + 1, 2, r, q + 1) >= here);
                    assert!(game_phase(p + 1, n + 1, 2, r + 1, q) >= here);
                }
            }
        }
    }
}

#[test]
fn mate_scores_are_told_apart() {
    assert!(is_mate_score(3_000_000));
    assert!(is_mate_score(-3_000_000));
    assert!(is_mate_score(2_999_872));
    assert!(is_mate_score(-2_999_872));
    assert!(!is_mate_score(2_999_871));
    assert!(!is_mate_score(-2_999_871));
    assert!(!is_mate_score(0));
    assert!(is_mate_score(i32::MIN));
}

#[test]
fn default_parameters_are_valid() {
    let params = Parameters::default();
    assert!(params.is_valid());
    assert_eq!(params.doubled_pawn_malus, S(32, 23));
    assert_eq!(params.passed_pawn_bonus[5], S(138, 169));
    assert_eq!(params.queen_mobility_bonus[27], S(53, 145));
    assert_eq!(params.king_danger_coeffs, [34, 179, -748]);
}

#[test]
fn parameters_beyond_the_limit_are_refused() {
    let mut params = Parameters::default();
    params.rook_mobility_bonus[3] = S(30_001, 0);
    assert!(!params.is_valid());
    let mut params = Parameters::default();
    params.king_danger_coeffs[2] = -10_001;
    assert!(!params.is_valid());
}

#[test]
fn king_area_of_a_white_king_reaches_two_ranks_up() {
    // King on e1: d1, f1, d2, e2, f2, and one rank further: e1's own rank
    // shifted gives d2, f2 again and d3, e3, f3.
    let area = king_area::<true>(4);
    let expected = (1u64 << 3) | (1 << 5) | (1 << 11) | (1 << 12) | (1 << 13) | (1 << 19)
        | (1 << 20) | (1 << 21);
    assert_eq!(area, expected);
}

#[test]
fn king_area_of_a_black_king_reaches_two_ranks_down() {
    // King on e8 (square 60).
    let area = king_area::<false>(60);
    let expected = (1u64 << 59) | (1 << 61) | (1 << 51) | (1 << 52) | (1 << 53) | (1 << 43)
        | (1 << 44) | (1 << 45);
    assert_eq!(area, expected);
}

#[test]
fn every_number_of_the_bundle_has_a_name() {
    assert_eq!(PARAM_COUNT, 173);
    assert_eq!(param_id(0), b"PIECE_VALUES_0_MG".to_vec());
    assert_eq!(param_id(1), b"PIECE_VALUES_0_EG".to_vec());
    assert_eq!(param_id(11), b"PIECE_VALUES_5_EG".to_vec());
    assert_eq!(param_id(12), b"ISOLATED_PAWN_MALUS_MG".to_vec());
    assert_eq!(param_id(25), b"QUEEN_HALF_OPEN_FILE_BONUS_EG".to_vec());
    assert_eq!(param_id(26), b"KNIGHT_MOBILITY_BONUS_0_MG".to_vec());
    assert_eq!(param_id(122), b"QUEEN_MOBILITY_BONUS_10_MG".to_vec());
    assert_eq!(param_id(157), b"QUEEN_MOBILITY_BONUS_27_EG".to_vec());
    assert_eq!(param_id(169), b"PASSED_PAWN_BONUS_5_EG".to_vec());
    assert_eq!(param_id(170), b"KING_DANGER_COEFFS_0".to_vec());
    assert_eq!(param_id(172), b"KING_DANGER_COEFFS_2".to_vec());
    for k in 0..PARAM_COUNT {
        assert_eq!(param_index(&param_id(k)), Some(k));
    }
    assert_eq!(param_index(&b"PIECE_VALUES_6_MG".to_vec()), None);
    assert_eq!(param_index(&b"".to_vec()), None);
}

#[test]
fn numbers_of_the_bundle_are_read_and_set() {
    let mut params = Parameters::default();
    assert_eq!(params.number(0), 87);
    assert_eq!(params.number(1), 155);
    assert_eq!(params.number(8), 1087);
    assert_eq!(params.number(12), 19);
    assert_eq!(params.number(26), -138);
    assert_eq!(params.number(157), 145);
    assert_eq!(params.number(172), -748);
    let before = params;
    params.set_number(157, -30_000);
    assert_eq!(params.queen_mobility_bonus[27], S(53, -30_000));
    for k in 0..PARAM_COUNT {
        if k != 157 {
            assert_eq!(params.number(k), before.number(k));
        }
    }
    assert!(params.is_valid());
}

#[test]
fn numbers_of_the_bundle_are_set_from_text() {
    let mut params = Parameters::default();
    let id = b"ROOK_OPEN_FILE_BONUS_MG".to_vec();
    assert_eq!(params.set_from_text(&id, &b"61".to_vec()), Ok(true));
    assert_eq!(params.rook_open_file_bonus, S(61, 0));
    assert_eq!(params.set_from_text(&id, &b"sixty".to_vec()), Err(ParameterError::NotANumber));
    assert_eq!(params.set_from_text(&id, &b"30001".to_vec()), Err(ParameterError::OutOfRange));
    assert_eq!(params.set_from_text(&id, &b"-30001".to_vec()), Err(ParameterError::OutOfRange));
    assert_eq!(params.set_from_text(&b"Hash".to_vec(), &b"1".to_vec()), Ok(false));
    assert_eq!(params.rook_open_file_bonus, S(61, 0));
    let id = b"KING_DANGER_COEFFS_0".to_vec();
    assert_eq!(params.set_from_text(&id, &b"10001".to_vec()), Err(ParameterError::OutOfRange));
    assert_eq!(params.set_from_text(&id, &b"-10000".to_vec()), Ok(true));
    assert_eq!(params.king_danger_coeffs[0], -10_000);
}

#[test]
fn every_number_of_the_bundle_has_its_limit() {
    for k in 0..170 {
        assert_eq!(param_bound(k), 30_000);
    }
    for k in 170..PARAM_COUNT {
        assert_eq!(param_bound(k), 10_000);
    }
    let mut params = Parameters::default();
    for k in 0..PARAM_COUNT {
        params.set_number(k, param_bound(k));
        assert!(params.is_valid());
        params.set_number(k, -param_bound(k));
        assert!(params.is_valid());
    }
}
