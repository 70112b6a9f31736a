use boardmatch::arbiter::{
    commit_and_observe_gomoku, commit_gomoku, commit_reversi, end_match, label_index,
    numeral_label_index, select_column_gomoku, select_column_reversi, select_row_gomoku,
    select_row_reversi, start_gomoku, start_reversi, ReversiOutcome,
};
use boardmatch::gomoku::{ObservedStone, Stone as QStone};
use boardmatch::reversi::Stone;
use boardmatch::session::{MatchError, MatchStore, QGStats, RStats, RStatsUser};

const U1: u64 = 1001;
const U2: u64 = 2002;

fn choose_reversi(store: &mut MatchStore<RStats>, ch: u64, who: u64, row: &str, col: &str) {
    assert_eq!(select_row_reversi(store, ch, who, row.to_string()), Ok(()));
    assert_eq!(select_column_reversi(store, ch, who, col.to_string()), Ok(()));
}

#[test]
fn first_move_of_a_match() {
    let mut store: MatchStore<RStats> = MatchStore::new();
    assert_eq!(start_reversi(&mut store, 7, U1, U2, false), Ok(()));
    choose_reversi(&mut store, 7, U1, "C", "4");
    match commit_reversi(&mut store, 7, U1) {
        Ok(ReversiOutcome::Moved { passed }) => assert!(!passed),
        other => panic!("unexpected {:?}", other),
    }
    let session = store.get(7).unwrap();
    let game = &session.reversi;
    assert_eq!(game.count_stone(Stone::BLACK) + game.count_stone(Stone::WHITE), 5);
    assert_eq!(game.count_stone(Stone::WHITE), 1);
    assert_eq!(game.board[2][3], Stone::BLACK);
    assert_eq!(game.turn_stone, Stone::WHITE);
}

#[test]
fn second_start_in_a_channel_is_refused() {
    let mut store: MatchStore<RStats> = MatchStore::new();
    assert_eq!(start_reversi(&mut store, 7, U1, U2, false), Ok(()));
    choose_reversi(&mut store, 7, U1, "D", "3");
    assert!(commit_reversi(&mut store, 7, U1).is_ok());
    let before = store.get(7).unwrap().reversi.board;
    assert_eq!(
        start_reversi(&mut store, 7, 3003, 4004, false),
        Err(MatchError::MatchAlreadyActive)
    );
    let session = store.get(7).unwrap();
    assert_eq!(session.reversi.board, before);
    assert_eq!(session.black_user.as_ref().unwrap().id, U1);
    assert_eq!(session.white_user.as_ref().unwrap().id, U2);
    assert_eq!(end_match(&mut store, 7), Ok(()));
    assert_eq!(start_reversi(&mut store, 7, 3003, 4004, false), Ok(()));
}

#[test]
fn store_create_refuses_a_second_session() {
    let mut store: MatchStore<RStats> = MatchStore::new();
    assert_eq!(store.create(7, RStats::new()), Ok(()));
    assert!(store.contains(7));
    assert_eq!(store.create(7, RStats::new()), Err(MatchError::MatchAlreadyActive));
    assert!(store.remove(7).is_some());
    assert!(!store.contains(7));
    assert!(store.get(7).is_none());
}

#[test]
fn invalid_opponents_are_refused() {
    let mut store: MatchStore<RStats> = MatchStore::new();
    assert_eq!(start_reversi(&mut store, 1, U1, U2, true), Err(MatchError::InvalidOpponent));
    assert_eq!(start_reversi(&mut store, 1, U1, U1, false), Err(MatchError::InvalidOpponent));
    assert!(!store.contains(1));
    let mut qstore: MatchStore<QGStats> = MatchStore::new();
    assert_eq!(start_gomoku(&mut qstore, 1, U1, U2, true), Err(MatchError::InvalidOpponent));
    assert_eq!(start_gomoku(&mut qstore, 1, U1, U1, false), Err(MatchError::InvalidOpponent));
    assert!(!qstore.contains(1));
}

#[test]
fn actions_without_a_match_are_refused() {
    let mut store: MatchStore<RStats> = MatchStore::new();
    assert_eq!(
        select_row_reversi(&mut store, 9, U1, "A".to_string()),
        Err(MatchError::NoActiveMatch)
    );
    assert!(matches!(commit_reversi(&mut store, 9, U1), Err(MatchError::NoActiveMatch)));
    assert_eq!(end_match(&mut store, 9), Err(MatchError::NoActiveMatch));
}

#[test]
fn only_the_mover_may_act() {
    let mut store: MatchStore<RStats> = MatchStore::new();
    assert_eq!(start_reversi(&mut store, 2, U1, U2, false), Ok(()));
    assert_eq!(
        select_row_reversi(&mut store, 2, U2, "C".to_string()),
        Err(MatchError::NotYourTurn)
    );
    assert_eq!(
        select_column_reversi(&mut store, 2, U2, "4".to_string()),
        Err(MatchError::NotYourTurn)
    );
    assert!(matches!(commit_reversi(&mut store, 2, U2), Err(MatchError::NotYourTurn)));
    let session = store.get(2).unwrap();
    assert_eq!(session.white_user.as_ref().unwrap().choiced_alphabet, None);
}

#[test]
fn missing_or_bad_selection_and_illegal_square() {
    let mut store: MatchStore<RStats> = MatchStore::new();
    assert_eq!(start_reversi(&mut store, 3, U1, U2, false), Ok(()));
    assert!(matches!(commit_reversi(&mut store, 3, U1), Err(MatchError::IncompleteSelection)));
    assert_eq!(select_row_reversi(&mut store, 3, U1, "A".to_string()), Ok(()));
    assert!(matches!(commit_reversi(&mut store, 3, U1), Err(MatchError::IncompleteSelection)));
    assert_eq!(select_column_reversi(&mut store, 3, U1, "9".to_string()), Ok(()));
    assert!(matches!(commit_reversi(&mut store, 3, U1), Err(MatchError::IncompleteSelection)));
    assert_eq!(select_column_reversi(&mut store, 3, U1, "1".to_string()), Ok(()));
    let before = store.get(3).unwrap().reversi.board;
    assert!(matches!(commit_reversi(&mut store, 3, U1), Err(MatchError::IllegalPlacement)));
    assert_eq!(store.get(3).unwrap().reversi.board, before);
    assert_eq!(store.get(3).unwrap().reversi.turn_stone, Stone::BLACK);
}

#[test]
fn opponent_without_a_square_passes() {
    let mut store: MatchStore<RStats> = MatchStore::new();
    let mut session = RStats::new();
    session.black_user = Some(RStatsUser::new(U1));
    session.white_user = Some(RStatsUser::new(U2));
    session.reversi.board = [[Stone::NONE; 8]; 8];
    session.reversi.board[0][0] = Stone::BLACK;
    session.reversi.board[0][1] = Stone::WHITE;
    session.reversi.board[7][7] = Stone::BLACK;
    session.reversi.board[7][6] = Stone::WHITE;
    store.put(4, session);
    choose_reversi(&mut store, 4, U1, "A", "3");
    match commit_reversi(&mut store, 4, U1) {
        Ok(ReversiOutcome::Moved { passed }) => assert!(passed),
        other => panic!("unexpected {:?}", other),
    }
    assert_eq!(store.get(4).unwrap().reversi.turn_stone, Stone::BLACK);
}

#[test]
fn last_move_finishes_and_removes_the_match() {
    let mut store: MatchStore<RStats> = MatchStore::new();
    let mut session = RStats::new();
    session.black_user = Some(RStatsUser::new(U1));
    session.white_user = Some(RStatsUser::new(U2));
    session.reversi.board = [[Stone::NONE; 8]; 8];
    session.reversi.board[0][0] = Stone::BLACK;
    session.reversi.board[0][1] = Stone::WHITE;
    store.put(5, session);
    choose_reversi(&mut store, 5, U1, "A", "3");
    match commit_reversi(&mut store, 5, U1) {
        Ok(ReversiOutcome::Finished { game, black, white, winner }) => {
            assert_eq!(black, 3);
            assert_eq!(white, 0);
            assert_eq!(winner, Stone::BLACK);
            assert_eq!(game.board[0][1], Stone::BLACK);
        }
        other => panic!("unexpected {:?}", other),
    }
    assert!(!store.contains(5));
}

#[test]
fn labels_resolve_to_indices() {
    assert_eq!(label_index(&"C".to_string(), 'A', 8), Some(2));
    assert_eq!(label_index(&"H".to_string(), 'A', 8), Some(7));
    assert_eq!(label_index(&"I".to_string(), 'A', 8), None);
    assert_eq!(label_index(&"O".to_string(), 'A', 15), Some(14));
    assert_eq!(label_index(&"AB".to_string(), 'A', 8), None);
    assert_eq!(label_index(&"".to_string(), 'A', 8), None);
    assert_eq!(label_index(&"8".to_string(), '1', 8), Some(7));
    assert_eq!(numeral_label_index(&"1".to_string()), Some(0));
    assert_eq!(numeral_label_index(&"15".to_string()), Some(14));
    assert_eq!(numeral_label_index(&"0".to_string()), None);
    assert_eq!(numeral_label_index(&"07".to_string()), None);
    assert_eq!(numeral_label_index(&"x".to_string()), None);
    assert_eq!(numeral_label_index(&"123".to_string()), None);
}

#[test]
fn gomoku_moves_rotate_the_turn() {
    let mut store: MatchStore<QGStats> = MatchStore::new();
    assert_eq!(start_gomoku(&mut store, 8, U1, U2, false), Ok(()));
    assert_eq!(start_gomoku(&mut store, 8, U1, U2, false), Err(MatchError::MatchAlreadyActive));
    assert_eq!(select_row_gomoku(&mut store, 8, U1, "B".to_string()), Ok(()));
    assert_eq!(select_column_gomoku(&mut store, 8, U1, "3".to_string()), Ok(()));
    assert_eq!(commit_gomoku(&mut store, 8, U1), Ok(()));
    let session = store.get(8).unwrap();
    assert_eq!(session.gomoku.board[1][2], QStone::Black90);
    assert_eq!(session.gomoku.current_turn, QStone::White90);
    assert_eq!(commit_gomoku(&mut store, 8, U1), Err(MatchError::NotYourTurn));
    assert_eq!(commit_gomoku(&mut store, 8, U2), Err(MatchError::IncompleteSelection));
    assert_eq!(select_row_gomoku(&mut store, 8, U2, "B".to_string()), Ok(()));
    assert_eq!(select_column_gomoku(&mut store, 8, U2, "3".to_string()), Ok(()));
    assert_eq!(commit_gomoku(&mut store, 8, U2), Err(MatchError::IllegalPlacement));
    assert_eq!(select_column_gomoku(&mut store, 8, U2, "20".to_string()), Ok(()));
    assert_eq!(commit_gomoku(&mut store, 8, U2), Err(MatchError::IllegalPlacement));
    assert_eq!(select_column_gomoku(&mut store, 8, U2, "4".to_string()), Ok(()));
    assert_eq!(commit_gomoku(&mut store, 8, U2), Ok(()));
    let session = store.get(8).unwrap();
    assert_eq!(session.gomoku.board[1][3], QStone::White90);
    assert_eq!(session.gomoku.current_turn, QStone::Black70);
}

#[test]
fn observing_without_a_line_goes_on() {
    let mut store: MatchStore<QGStats> = MatchStore::new();
    assert_eq!(start_gomoku(&mut store, 6, U1, U2, false), Ok(()));
    assert_eq!(select_row_gomoku(&mut store, 6, U1, "A".to_string()), Ok(()));
    assert_eq!(select_column_gomoku(&mut store, 6, U1, "1".to_string()), Ok(()));
    let observation = commit_and_observe_gomoku(&mut store, 6, U1).unwrap();
    assert_eq!(observation.winner, ObservedStone::Empty);
    assert_ne!(observation.observed[0][0], ObservedStone::Empty);
    assert_eq!(observation.observed[0][1], ObservedStone::Empty);
    let session = store.get(6).unwrap();
    assert_eq!(session.gomoku.current_turn, QStone::White90);
    assert_eq!(session.gomoku.board[0][0], QStone::Black90);
}

#[test]
fn observing_a_line_of_one_colour_ends_the_match() {
    let mut store: MatchStore<QGStats> = MatchStore::new();
    assert_eq!(start_gomoku(&mut store, 6, U1, U2, false), Ok(()));
    let mut session = store.remove(6).unwrap();
    for c in 0..4 {
        session.gomoku.board[0][c] = QStone::Black90;
        session.gomoku.board[1][c] = QStone::White90;
        session.gomoku.board[2][c] = QStone::Black70;
        session.gomoku.board[3][c] = QStone::White70;
    }
    store.put(6, session);
    assert_eq!(select_row_gomoku(&mut store, 6, U1, "A".to_string()), Ok(()));
    assert_eq!(select_column_gomoku(&mut store, 6, U1, "5".to_string()), Ok(()));
    let observation = commit_and_observe_gomoku(&mut store, 6, U1).unwrap();
    let black_row = (0..5).all(|c| observation.observed[0][c] == ObservedStone::Black);
    if black_row {
        assert_eq!(observation.winner, ObservedStone::Black);
    }
    if observation.winner == ObservedStone::Empty {
        assert!(store.contains(6));
        assert_eq!(store.get(6).unwrap().gomoku.current_turn, QStone::White90);
    } else {
        assert!(!store.contains(6));
    }
}
