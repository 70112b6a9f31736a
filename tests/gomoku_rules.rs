use boardmatch::gomoku::{collapse_stone, ObservedStone, QuantumGomoku, Stone};

#[test]
fn turn_change() {
    let mut gomoku = QuantumGomoku::new();
    assert_eq!(gomoku.current_turn, Stone::Black90);

    gomoku.switch_turn();
    assert_eq!(gomoku.current_turn, Stone::White90);

    gomoku.switch_turn();
    assert_eq!(gomoku.current_turn, Stone::Black70);

    gomoku.switch_turn();
    assert_eq!(gomoku.current_turn, Stone::White70);

    gomoku.switch_turn();
    assert_eq!(gomoku.current_turn, Stone::Black90);
}

#[test]
fn do_place() {
    let mut gomoku = QuantumGomoku::new();
    gomoku.board[0][0] = Stone::Black90;

    assert_eq!(Err("OutOfBoardRange".to_string()), gomoku.do_place(19, 19));
    assert_eq!(Err("AlreadyPlace".to_string()), gomoku.do_place(0, 0));
    assert_eq!(Ok("Success".to_string()), gomoku.do_place(0, 1));
}

#[test]
fn get_mass_around() {
    let mut observed = [[ObservedStone::Black; 19]; 19];
    observed[0] = [ObservedStone::White; 19];

    assert_eq!(
        [
            [
                ObservedStone::Empty,
                ObservedStone::Empty,
                ObservedStone::White,
                ObservedStone::White,
                ObservedStone::White,
            ],
            [
                ObservedStone::Empty,
                ObservedStone::Empty,
                ObservedStone::White,
                ObservedStone::Black,
                ObservedStone::Black,
            ],
            [
                ObservedStone::Empty,
                ObservedStone::Empty,
                ObservedStone::White,
                ObservedStone::Black,
                ObservedStone::Black,
            ],
            [
                ObservedStone::Empty,
                ObservedStone::Empty,
                ObservedStone::White,
                ObservedStone::Empty,
                ObservedStone::Empty,
            ],
        ],
        QuantumGomoku::get_mass_around(&observed, 0, 0)
    );
}

#[test]
fn is_mass_connected() {
    let mut observed = [[ObservedStone::Black; 19]; 19];
    observed[0] = [ObservedStone::White; 19];

    assert_eq!(
        true,
        QuantumGomoku::is_mass_connected(observed, ObservedStone::Black)
    );

    assert_eq!(
        true,
        QuantumGomoku::is_mass_connected(observed, ObservedStone::White)
    );

    let observed = [[ObservedStone::Black; 19]; 19];

    assert_eq!(
        true,
        QuantumGomoku::is_mass_connected(observed, ObservedStone::Black)
    );

    assert_eq!(
        false,
        QuantumGomoku::is_mass_connected(observed, ObservedStone::White)
    );

    let observed = [[ObservedStone::Empty; 19]; 19];

    assert_eq!(
        false,
        QuantumGomoku::is_mass_connected(observed, ObservedStone::Black)
    );

    assert_eq!(
        false,
        QuantumGomoku::is_mass_connected(observed, ObservedStone::White)
    );
}

#[test]
fn place_rejects_without_change() {
    let mut gomoku = QuantumGomoku::new();
    assert!(gomoku.do_place(3, 4).is_ok());
    let before = gomoku.board;
    assert!(gomoku.do_place(19, 0).is_err());
    assert!(gomoku.do_place(0, 19).is_err());
    assert!(gomoku.do_place(usize::MAX, 2).is_err());
    assert_eq!(Err("AlreadyPlace".to_string()), gomoku.do_place(3, 4));
    assert_eq!(gomoku.board, before);
    assert_eq!(gomoku.board[3][4], Stone::Black90);
}

#[test]
fn place_uses_current_weight() {
    let mut gomoku = QuantumGomoku::new();
    gomoku.switch_turn();
    gomoku.switch_turn();
    assert_eq!(Ok("Success".to_string()), gomoku.do_place(18, 18));
    assert_eq!(gomoku.board[18][18], Stone::Black70);
}

#[test]
fn four_turns_visit_each_weight_once() {
    let mut gomoku = QuantumGomoku::new();
    let mut seen = vec![gomoku.current_turn];
    for _ in 0..4 {
        gomoku.switch_turn();
        seen.push(gomoku.current_turn);
    }
    assert_eq!(
        seen,
        vec![
            Stone::Black90,
            Stone::White90,
            Stone::Black70,
            Stone::White70,
            Stone::Black90
        ]
    );
}

#[test]
fn five_in_a_row_connects_and_a_break_does_not() {
    let mut observed = [[ObservedStone::Empty; 19]; 19];
    for c in 7..12 {
        observed[4][c] = ObservedStone::White;
    }
    assert!(QuantumGomoku::is_mass_connected(observed, ObservedStone::White));
    assert!(!QuantumGomoku::is_mass_connected(observed, ObservedStone::Black));

    for k in 7..12 {
        let mut broken = observed;
        broken[4][k] = ObservedStone::Black;
        assert!(!QuantumGomoku::is_mass_connected(broken, ObservedStone::White));
        let mut gap = observed;
        gap[4][k] = ObservedStone::Empty;
        assert!(!QuantumGomoku::is_mass_connected(gap, ObservedStone::White));
    }
}

#[test]
fn lines_do_not_wrap_round_the_edge() {
    let mut observed = [[ObservedStone::Empty; 19]; 19];
    observed[0][17] = ObservedStone::Black;
    observed[0][18] = ObservedStone::Black;
    observed[1][0] = ObservedStone::Black;
    observed[1][1] = ObservedStone::Black;
    observed[1][2] = ObservedStone::Black;
    assert!(!QuantumGomoku::is_mass_connected(observed, ObservedStone::Black));
}

#[test]
fn diagonal_five_connects() {
    let mut observed = [[ObservedStone::Empty; 19]; 19];
    for k in 0..5 {
        observed[14 + k][4 - k] = ObservedStone::Black;
    }
    assert!(QuantumGomoku::is_mass_connected(observed, ObservedStone::Black));
}

#[test]
fn collapse_follows_the_weights() {
    assert_eq!(collapse_stone(Stone::Black90, 0), ObservedStone::Black);
    assert_eq!(collapse_stone(Stone::Black90, 3_865_470_566), ObservedStone::Black);
    assert_eq!(collapse_stone(Stone::Black90, 3_865_470_567), ObservedStone::White);
    assert_eq!(collapse_stone(Stone::Black70, 3_006_477_107), ObservedStone::Black);
    assert_eq!(collapse_stone(Stone::Black70, 3_006_477_108), ObservedStone::White);
    assert_eq!(collapse_stone(Stone::White70, 1_288_490_188), ObservedStone::Black);
    assert_eq!(collapse_stone(Stone::White70, 1_288_490_189), ObservedStone::White);
    assert_eq!(collapse_stone(Stone::White90, 429_496_729), ObservedStone::Black);
    assert_eq!(collapse_stone(Stone::White90, 429_496_730), ObservedStone::White);
    assert_eq!(collapse_stone(Stone::White90, u32::MAX), ObservedStone::White);
    assert_eq!(collapse_stone(Stone::Empty, 0), ObservedStone::Empty);
}

#[test]
fn observe_with_given_draws() {
    let mut gomoku = QuantumGomoku::new();
    gomoku.board[2][3] = Stone::Black90;
    gomoku.board[5][5] = Stone::White90;
    let mut draws = [[0u32; 19]; 19];
    draws[5][5] = u32::MAX;
    let observed = gomoku.observe_with(&draws);
    assert_eq!(observed[2][3], ObservedStone::Black);
    assert_eq!(observed[5][5], ObservedStone::White);
    assert_eq!(observed[0][0], ObservedStone::Empty);
}

#[test]
fn winner_rules_and_tie_break() {
    let mut gomoku = QuantumGomoku::new();
    let mut observed = [[ObservedStone::Empty; 19]; 19];
    assert_eq!(gomoku.decide_winner(&observed), ObservedStone::Empty);
    for c in 0..5 {
        observed[0][c] = ObservedStone::Black;
    }
    assert_eq!(gomoku.decide_winner(&observed), ObservedStone::Black);
    for c in 0..5 {
        observed[10][c] = ObservedStone::White;
    }
    assert_eq!(gomoku.decide_winner(&observed), ObservedStone::Black);
    gomoku.switch_turn();
    assert_eq!(gomoku.decide_winner(&observed), ObservedStone::White);
    for c in 0..5 {
        observed[0][c] = ObservedStone::Empty;
    }
    gomoku.switch_turn();
    assert_eq!(gomoku.decide_winner(&observed), ObservedStone::White);
}

#[test]
fn judge_keeps_empty_squares_empty() {
    let mut gomoku = QuantumGomoku::new();
    gomoku.board[9][9] = Stone::White70;
    let (winner, observed) = gomoku.judge_winner();
    assert_eq!(winner, ObservedStone::Empty);
    for r in 0..19 {
        for c in 0..19 {
            if r == 9 && c == 9 {
                assert_ne!(observed[r][c], ObservedStone::Empty);
            } else {
                assert_eq!(observed[r][c], ObservedStone::Empty);
            }
        }
    }
}
