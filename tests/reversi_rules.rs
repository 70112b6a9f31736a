use boardmatch::reversi::{winner_of, Reversi, Stone};

fn legal_squares(game: &Reversi, color: Stone) -> Vec<(i32, i32)> {
    let mut squares = Vec::new();
    for r in 0..8 {
        for c in 0..8 {
            if game.can_place_square(r, c, color) {
                squares.push((r, c));
            }
        }
    }
    squares
}

fn stones(game: &Reversi) -> u32 {
    game.count_stone(Stone::BLACK) + game.count_stone(Stone::WHITE)
}

#[test]
fn opening_position() {
    let game = Reversi::new();
    assert_eq!(game.turn_stone, Stone::BLACK);
    assert_eq!(game.board[3][3], Stone::WHITE);
    assert_eq!(game.board[4][4], Stone::WHITE);
    assert_eq!(game.board[3][4], Stone::BLACK);
    assert_eq!(game.board[4][3], Stone::BLACK);
    assert_eq!(stones(&game), 4);
}

#[test]
fn opening_has_four_legal_moves_for_black() {
    let game = Reversi::new();
    assert_eq!(legal_squares(&game, Stone::BLACK), vec![(2, 3), (3, 2), (4, 5), (5, 4)]);
    assert_eq!(legal_squares(&game, Stone::WHITE), vec![(2, 4), (3, 5), (4, 2), (5, 3)]);
}

#[test]
fn occupied_or_unflanked_squares_are_illegal() {
    let game = Reversi::new();
    assert!(!game.can_place_square(3, 3, Stone::BLACK));
    assert!(!game.can_place_square(0, 0, Stone::BLACK));
    assert!(!game.can_place_square(2, 2, Stone::BLACK));
    assert!(!game.can_place_square(5, 5, Stone::BLACK));
}

#[test]
fn place_flips_and_adds_one_stone() {
    let mut game = Reversi::new();
    assert_eq!(Ok("Placed".to_string()), game.do_place(2, 3, Stone::BLACK));
    assert_eq!(game.board[2][3], Stone::BLACK);
    assert_eq!(game.board[3][3], Stone::BLACK);
    assert_eq!(stones(&game), 5);
    assert_eq!(game.count_stone(Stone::BLACK), 4);
    assert_eq!(game.count_stone(Stone::WHITE), 1);
    assert_eq!(game.turn_stone, Stone::BLACK);
}

#[test]
fn place_flips_in_several_directions() {
    let mut game = Reversi::new();
    game.board = [[Stone::NONE; 8]; 8];
    game.board[0][0] = Stone::BLACK;
    game.board[0][1] = Stone::WHITE;
    game.board[0][2] = Stone::WHITE;
    game.board[1][0] = Stone::WHITE;
    game.board[2][0] = Stone::BLACK;
    game.board[1][1] = Stone::WHITE;
    game.board[2][2] = Stone::BLACK;
    game.board[3][0] = Stone::WHITE;
    assert!(game.can_place_square(0, 3, Stone::BLACK));
    assert!(game.do_place(0, 3, Stone::BLACK).is_ok());
    assert_eq!(game.board[0][1], Stone::BLACK);
    assert_eq!(game.board[0][2], Stone::BLACK);
    assert_eq!(game.board[1][1], Stone::WHITE);
    assert_eq!(game.board[1][0], Stone::WHITE);
    assert_eq!(game.count_stone(Stone::BLACK), 6);
    assert_eq!(game.count_stone(Stone::WHITE), 3);
}

#[test]
fn illegal_place_changes_nothing() {
    let mut game = Reversi::new();
    let before = game.board;
    assert_eq!(Err("CannotPlaced".to_string()), game.do_place(0, 0, Stone::BLACK));
    assert_eq!(Err("CannotPlaced".to_string()), game.do_place(3, 3, Stone::BLACK));
    assert_eq!(game.board, before);
}

#[test]
fn switch_turn_alternates() {
    let mut game = Reversi::new();
    game.switch_turn();
    assert_eq!(game.turn_stone, Stone::WHITE);
    game.switch_turn();
    assert_eq!(game.turn_stone, Stone::BLACK);
}

#[test]
fn full_board_ends_the_game() {
    let mut game = Reversi::new();
    game.board = [[Stone::BLACK; 8]; 8];
    game.board[0][0] = Stone::WHITE;
    assert!(!game.player_can_place(Stone::BLACK));
    assert!(!game.player_can_place(Stone::WHITE));
    assert!(game.is_game_end());
}

#[test]
fn blocked_board_ends_the_game_early() {
    let mut game = Reversi::new();
    game.board = [[Stone::NONE; 8]; 8];
    game.board[3][3] = Stone::BLACK;
    game.board[3][4] = Stone::BLACK;
    game.board[4][3] = Stone::BLACK;
    assert!(!game.player_can_place(Stone::BLACK));
    assert!(!game.player_can_place(Stone::WHITE));
    assert!(game.is_game_end());
}

#[test]
fn opening_is_not_the_end() {
    let game = Reversi::new();
    assert!(game.player_can_place(Stone::BLACK));
    assert!(game.player_can_place(Stone::WHITE));
    assert!(!game.is_game_end());
}

#[test]
fn text_board_of_the_opening() {
    let game = Reversi::new();
    let mut expected = String::from(
        "\u{1f7e6}1\u{fe0f}\u{20e3}2\u{fe0f}\u{20e3}3\u{fe0f}\u{20e3}4\u{fe0f}\u{20e3}5\u{fe0f}\u{20e3}6\u{fe0f}\u{20e3}7\u{fe0f}\u{20e3}8\u{fe0f}\u{20e3}\n",
    );
    let labels = [
        "\u{1f1e6}", "\u{1f1e7}", "\u{1f1e8}", "\u{1f1e9}", "\u{1f1ea}", "\u{1f1eb}", "\u{1f1ec}",
        "\u{1f1ed}",
    ];
    let legal = [(2, 3), (3, 2), (4, 5), (5, 4)];
    for r in 0..8 {
        expected += labels[r];
        for c in 0..8 {
            if (r == 3 && c == 3) || (r == 4 && c == 4) {
                expected += "\u{26aa}";
            } else if (r == 3 && c == 4) || (r == 4 && c == 3) {
                expected += "\u{1f535}";
            } else if legal.contains(&(r, c)) {
                expected += "\u{25ab}\u{fe0f}";
            } else {
                expected += "\u{25fd}";
            }
        }
        expected += "\n";
    }
    assert_eq!(game.print_board(), expected);
}

#[test]
fn opening_move_texts() {
    let mut game = Reversi::new();
    assert_eq!(Err("CannotPlaced".to_string()), game.do_place(0, 0, Stone::BLACK));
    assert_eq!(game.board, Reversi::new().board);
    assert_eq!(game.turn_stone, Stone::BLACK);
    assert_eq!(Ok("Placed".to_string()), game.do_place(3, 2, Stone::BLACK));
    assert_eq!(game.board[3][2], Stone::BLACK);
    assert_eq!(game.board[3][3], Stone::BLACK);
    assert_eq!(game.count_stone(Stone::BLACK), 4);
    assert_eq!(game.count_stone(Stone::WHITE), 1);
}

#[test]
fn winner_by_stone_count() {
    assert_eq!(winner_of(33, 31), Stone::BLACK);
    assert_eq!(winner_of(10, 54), Stone::WHITE);
    assert_eq!(winner_of(32, 32), Stone::NONE);
    assert_eq!(winner_of(0, 0), Stone::NONE);
}
