//! Rule engine of the 19x19 quantum five-in-a-row game: weighted stones,
//! their random collapse to a colour, and the five-in-a-row check.
use vstd::prelude::*;
use vstd::string::*;

verus! {

/// A weighted stone: the side that put it and the chance, in percent, that it
/// shows that side's colour when observed. Also names the mover and weight of
/// the current turn.
#[derive(Clone, Copy, Debug, PartialEq, Eq, Structural)]
pub enum Stone {
    Black90,
    Black70,
    White90,
    White70,
    Empty,
}

/// A square after observation.
#[derive(Clone, Copy, Debug, PartialEq, Eq, Structural)]
pub enum ObservedStone {
    Black,
    White,
    Empty,
}

/// A board of weighted stones with the current mover and weight.
#[derive(Debug)]
pub struct QuantumGomoku {
    pub board: [[Stone; 19]; 19],
    pub current_turn: Stone,
}

/// `(r, c)` is a square of the board.
pub open spec fn on_board(r: int, c: int) -> bool {
    0 <= r < 19 && 0 <= c < 19
}

/// The weighted stone at `(r, c)`.
pub open spec fn stone_at(b: [[Stone; 19]; 19], r: int, c: int) -> Stone {
    b[r][c]
}

/// The observed square at `(r, c)`; `Empty` off the board.
pub open spec fn observed_at(b: [[ObservedStone; 19]; 19], r: int, c: int) -> ObservedStone {
    if on_board(r, c) {
        b[r][c]
    } else {
        ObservedStone::Empty
    }
}

/// The turn after `t`: Black 90, White 90, Black 70, White 70, and round again.
pub open spec fn next_turn(t: Stone) -> Stone {
    match t {
        Stone::Black90 => Stone::White90,
        Stone::White90 => Stone::Black70,
        Stone::Black70 => Stone::White70,
        Stone::White70 => Stone::Black90,
        Stone::Empty => Stone::Empty,
    }
}

/// The colour of the side that puts stones of kind `t`.
pub open spec fn side_of(t: Stone) -> ObservedStone {
    match t {
        Stone::Black90 | Stone::Black70 => ObservedStone::Black,
        Stone::White90 | Stone::White70 => ObservedStone::White,
        Stone::Empty => ObservedStone::Empty,
    }
}

/// Chance, in tenths, that a stone of kind `t` is observed black.
pub open spec fn black_tenths(t: Stone) -> int {
    match t {
        Stone::Black90 => 9,
        Stone::Black70 => 7,
        Stone::White70 => 3,
        Stone::White90 => 1,
        Stone::Empty => 0,
    }
}

/// The colour that stone `t` shows for the uniform draw `draw`: black when
/// `draw / 2^32` is below its black chance.
pub open spec fn collapse(t: Stone, draw: u32) -> ObservedStone {
    if t == Stone::Empty {
        ObservedStone::Empty
    } else if 10 * (draw as int) < black_tenths(t) * 0x1_0000_0000 {
        ObservedStone::Black
    } else {
        ObservedStone::White
    }
}

/// `k` steps of unit offset `m` (one of -1, 0, 1).
pub open spec fn offset(k: int, m: int) -> int {
    if m > 0 {
        k
    } else if m < 0 {
        -k
    } else {
        0
    }
}

/// Row offset of line `d`: horizontal, vertical, down-right, down-left.
pub open spec fn line_row(d: int) -> int {
    if d == 0 {
        0
    } else {
        1
    }
}

/// Column offset of line `d` (see `line_row`).
pub open spec fn line_col(d: int) -> int {
    if d == 1 {
        0
    } else if d == 3 {
        -1
    } else {
        1
    }
}

/// Square `i` (0 to 4) of the five-square line `d` centred on `(r, c)`.
pub open spec fn window(b: [[ObservedStone; 19]; 19], r: int, c: int, d: int, i: int) -> ObservedStone {
    observed_at(b, r + offset(i - 2, line_row(d)), c + offset(i - 2, line_col(d)))
}

/// All five squares of line `d` centred on `(r, c)` are `color`.
pub open spec fn five_at(b: [[ObservedStone; 19]; 19], r: int, c: int, d: int, color: ObservedStone) -> bool {
    forall|i: int| 0 <= i < 5 ==> #[trigger] window(b, r, c, d, i) == color
}

/// Some five-square line centred on a square of the board is all `color`.
pub open spec fn connected(b: [[ObservedStone; 19]; 19], color: ObservedStone) -> bool {
    exists|r: int, c: int, d: int|
        on_board(r, c) && 0 <= d < 4 && #[trigger] five_at(b, r, c, d, color)
}

/// The winner of observed board `b` when the side of `turn` has just moved:
/// the only side with five in a row; with both, the side of `turn`; with
/// neither, nobody.
pub open spec fn winner(b: [[ObservedStone; 19]; 19], turn: Stone) -> ObservedStone {
    let black = connected(b, ObservedStone::Black);
    let white = connected(b, ObservedStone::White);
    if black && !white {
        ObservedStone::Black
    } else if white && !black {
        ObservedStone::White
    } else if !black && !white {
        ObservedStone::Empty
    } else {
        side_of(turn)
    }
}

/// Five squares from `(r, c)` along line `d`, all on the board and all `color`.
pub open spec fn run_of_five(b: [[ObservedStone; 19]; 19], r: int, c: int, d: int, color: ObservedStone) -> bool {
    forall|k: int|
        0 <= k < 5 ==> on_board(r + offset(k, line_row(d)), c + offset(k, line_col(d)))
            && #[trigger] observed_at(b, r + offset(k, line_row(d)), c + offset(k, line_col(d)))
            == color
}

/// Four turns from any kind bring it back, and from Black 90 the turns run
/// White 90, Black 70, White 70, each met once before Black 90 comes again.
pub proof fn lemma_turn_cycle(t: Stone)
    requires
        t != Stone::Empty,
    ensures
        next_turn(next_turn(next_turn(next_turn(t)))) == t,
        next_turn(t) != t,
        next_turn(next_turn(t)) != t,
        next_turn(next_turn(next_turn(t))) != t,
        next_turn(Stone::Black90) == Stone::White90,
        next_turn(Stone::White90) == Stone::Black70,
        next_turn(Stone::Black70) == Stone::White70,
        next_turn(Stone::White70) == Stone::Black90,
{
}

/// A colour is connected exactly when five of its stones stand in a straight
/// line, horizontal, vertical or diagonal, on the board: squares off the
/// board never count for a colour, and no line wraps round an edge.
pub proof fn lemma_connected_iff_run(b: [[ObservedStone; 19]; 19], color: ObservedStone)
    requires
        color != ObservedStone::Empty,
    ensures
        connected(b, color) <==> exists|r: int, c: int, d: int|
            0 <= d < 4 && #[trigger] run_of_five(b, r, c, d, color),
{
    if connected(b, color) {
        let (r, c, d) = choose|r: int, c: int, d: int|
            on_board(r, c) && 0 <= d < 4 && #[trigger] five_at(b, r, c, d, color);
        let r0 = r - offset(2, line_row(d));
        let c0 = c - offset(2, line_col(d));
        assert forall|k: int| 0 <= k < 5 implies on_board(
            r0 + offset(k, line_row(d)),
            c0 + offset(k, line_col(d)),
        ) && #[trigger] observed_at(b, r0 + offset(k, line_row(d)), c0 + offset(k, line_col(d)))
            == color by {
            assert(window(b, r, c, d, k) == color);
            assert(r0 + offset(k, line_row(d)) == r + offset(k - 2, line_row(d)));
            assert(c0 + offset(k, line_col(d)) == c + offset(k - 2, line_col(d)));
        }
        assert(run_of_five(b, r0, c0, d, color));
    }
    if exists|r: int, c: int, d: int| 0 <= d < 4 && #[trigger] run_of_five(b, r, c, d, color) {
        let (r0, c0, d) = choose|r: int, c: int, d: int|
            0 <= d < 4 && #[trigger] run_of_five(b, r, c, d, color);
        let r = r0 + offset(2, line_row(d));
        let c = c0 + offset(2, line_col(d));
        assert(on_board(r, c)) by {
            assert(observed_at(b, r0 + offset(2, line_row(d)), c0 + offset(2, line_col(d))) == color);
        }
        assert forall|i: int| 0 <= i < 5 implies #[trigger] window(b, r, c, d, i) == color by {
            assert(r + offset(i - 2, line_row(d)) == r0 + offset(i, line_row(d)));
            assert(c + offset(i - 2, line_col(d)) == c0 + offset(i, line_col(d)));
            assert(observed_at(b, r0 + offset(i, line_row(d)), c0 + offset(i, line_col(d))) == color);
        }
        assert(five_at(b, r, c, d, color));
    }
}

/// Relies on rand::random: a value drawn from the thread-local generator,
/// uniform over the type for the integer types; nothing is promised of it.
pub assume_specification<T>[ rand::random::<T> ]() -> (r: T)
    where
        rand::distributions::Standard: rand::distributions::Distribution<T>,
;

/// The colour that stone `stone` shows for the uniform draw `draw`.
pub fn collapse_stone(stone: Stone, draw: u32) -> (r: ObservedStone)
    ensures
        r == collapse(stone, draw),
{
    let tenths: u64 = match stone {
        Stone::Black90 => 9,
        Stone::Black70 => 7,
        Stone::White70 => 3,
        Stone::White90 => 1,
        Stone::Empty => {
            return ObservedStone::Empty;
        },
    };
    if (draw as u64) * 10 < tenths * 0x1_0000_0000 {
        ObservedStone::Black
    } else {
        ObservedStone::White
    }
}

impl QuantumGomoku {
    /// An empty board, Black 90 to move.
    pub fn new() -> (r: Self)
        ensures
            r.current_turn == Stone::Black90,
            forall|i: int, j: int| on_board(i, j) ==> stone_at(r.board, i, j) == Stone::Empty,
    {
        QuantumGomoku { board: [[Stone::Empty; 19]; 19], current_turn: Stone::Black90 }
    }

    /// Moves the turn on: Black 90, White 90, Black 70, White 70, and round again.
    pub fn switch_turn(&mut self)
        requires
            old(self).current_turn != Stone::Empty,
        ensures
            final(self).board == old(self).board,
            final(self).current_turn == next_turn(old(self).current_turn),
    {
        match self.current_turn {
            Stone::Black90 => self.current_turn = Stone::White90,
            Stone::White90 => self.current_turn = Stone::Black70,
            Stone::Black70 => self.current_turn = Stone::White70,
            Stone::White70 => self.current_turn = Stone::Black90,
            Stone::Empty => {},
        }
    }

    /// Puts a stone of the current kind at `(row, column)`. Refuses a square
    /// off the board or one already taken, and then changes nothing.
    pub fn do_place(&mut self, row: usize, column: usize) -> (r: Result<String, String>)
        requires
            old(self).current_turn != Stone::Empty,
        ensures
            final(self).current_turn == old(self).current_turn,
            !on_board(row as int, column as int) ==> (r matches Err(e) && e@
                == "OutOfBoardRange"@),
            on_board(row as int, column as int) && stone_at(old(self).board, row as int, column as int)
                != Stone::Empty ==> (r matches Err(e) && e@ == "AlreadyPlace"@),
            on_board(row as int, column as int) && stone_at(old(self).board, row as int, column as int)
                == Stone::Empty ==> (r matches Ok(m) && m@ == "Success"@),
            r is Err ==> final(self).board == old(self).board,
            r is Ok ==> forall|i: int, j: int|
                on_board(i, j) ==> #[trigger] stone_at(final(self).board, i, j) == (if i == row
                    && j == column {
                    old(self).current_turn
                } else {
                    stone_at(old(self).board, i, j)
                }),
    {
        if !(row <= 18 && column <= 18) {
            return Err(String::from_str("OutOfBoardRange"));
        }
        if self.board[row][column] != Stone::Empty {
            return Err(String::from_str("AlreadyPlace"));
        }
        self.board[row][column] = self.current_turn;
        Ok(String::from_str("Success"))
    }

    /// The colours every stone shows for the uniform draws `draws`, one per square.
    pub fn observe_with(&self, draws: &[[u32; 19]; 19]) -> (r: [[ObservedStone; 19]; 19])
        ensures
            forall|i: int, j: int|
                on_board(i, j) ==> #[trigger] observed_at(r, i, j) == collapse(
                    stone_at(self.board, i, j),
                    draws[i][j],
                ),
    {
        let mut observed = [[ObservedStone::Empty; 19]; 19];
        let mut row: usize = 0;
        while row < 19
            invariant
                row <= 19,
                forall|i: int, j: int|
                    0 <= i < row && 0 <= j < 19 ==> #[trigger] observed[i][j] == collapse(
                        stone_at(self.board, i, j),
                        draws[i][j],
                    ),
            decreases 19 - row,
        {
            let mut column: usize = 0;
            while column < 19
                invariant
                    row < 19,
                    column <= 19,
                    forall|i: int, j: int|
                        0 <= i < row && 0 <= j < 19 ==> #[trigger] observed[i][j] == collapse(
                            stone_at(self.board, i, j),
                            draws[i][j],
                        ),
                    forall|j: int|
                        0 <= j < column ==> #[trigger] observed[row as int][j] == collapse(
                            stone_at(self.board, row as int, j),
                            draws[row as int][j],
                        ),
                decreases 19 - column,
            {
                observed[row][column] = collapse_stone(self.board[row][column], draws[row][column]);
                column = column + 1;
            }
            row = row + 1;
        }
        observed
    }

    /// Observes every stone: each occupied square draws its own uniform value
    /// and shows black or white by its stone's chance; empty squares stay empty.
    fn create_observed_board(&self) -> (r: [[ObservedStone; 19]; 19])
        ensures
            forall|i: int, j: int|
                on_board(i, j) ==> ((#[trigger] observed_at(r, i, j) == ObservedStone::Empty) == (
                stone_at(self.board, i, j) == Stone::Empty)),
    {
        let mut draws = [[0u32; 19]; 19];
        let mut row: usize = 0;
        while row < 19
            invariant
                row <= 19,
            decreases 19 - row,
        {
            let mut column: usize = 0;
            while column < 19
                invariant
                    row < 19,
                    column <= 19,
                decreases 19 - column,
            {
                if self.board[row][column] != Stone::Empty {
                    draws[row][column] = rand::random::<u32>();
                }
                column = column + 1;
            }
            row = row + 1;
        }
        self.observe_with(&draws)
    }

    /// The five squares of each of the four lines centred on `(row, column)`:
    /// horizontal, vertical, down-right and down-left; `Empty` off the board.
    pub fn get_mass_around(observed_board: &[[ObservedStone; 19]; 19], row: i32, column: i32) -> (r: [[ObservedStone; 5]; 4])
        ensures
            forall|d: int, i: int|
                0 <= d < 4 && 0 <= i < 5 ==> #[trigger] r[d][i] == window(
                    *observed_board,
                    row as int,
                    column as int,
                    d,
                    i,
                ),
    {
        let mut lines = [[ObservedStone::Empty; 5]; 4];
        let moves: [(i64, i64); 4] = [(0, 1), (1, 0), (1, 1), (1, -1)];
        let mut d: usize = 0;
        while d < 4
            invariant
                d <= 4,
                moves@ == seq![(0i64, 1i64), (1i64, 0i64), (1i64, 1i64), (1i64, -1i64)],
                forall|k: int, i: int|
                    0 <= k < d && 0 <= i < 5 ==> #[trigger] lines[k][i] == window(
                        *observed_board,
                        row as int,
                        column as int,
                        k,
                        i,
                    ),
            decreases 4 - d,
        {
            let (move_row, move_column) = moves[d];
            assert(move_row == line_row(d as int) && move_column == line_col(d as int));
            let mut irow: i64 = row as i64 - 2 * move_row;
            let mut icolumn: i64 = column as i64 - 2 * move_column;
            let mut i: usize = 0;
            while i < 5
                invariant
                    d < 4,
                    i <= 5,
                    move_row == line_row(d as int),
                    move_column == line_col(d as int),
                    irow == row + offset(i - 2, move_row as int),
                    icolumn == column + offset(i - 2, move_column as int),
                    forall|k: int, j: int|
                        0 <= k < d && 0 <= j < 5 ==> #[trigger] lines[k][j] == window(
                            *observed_board,
                            row as int,
                            column as int,
                            k,
                            j,
                        ),
                    forall|j: int|
                        0 <= j < i ==> #[trigger] lines[d as int][j] == window(
                            *observed_board,
                            row as int,
                            column as int,
                            d as int,
                            j,
                        ),
                decreases 5 - i,
            {
                if 0 <= irow && irow <= 18 && 0 <= icolumn && icolumn <= 18 {
                    lines[d][i] = observed_board[irow as usize][icolumn as usize];
                } else {
                    lines[d][i] = ObservedStone::Empty;
                }
                irow = irow + move_row;
                icolumn = icolumn + move_column;
                i = i + 1;
            }
            d = d + 1;
        }
        lines
    }

    /// Whether some five-square line centred on a square of the board is all
    /// `check_color`.
    pub fn is_mass_connected(observed_board: [[ObservedStone; 19]; 19], check_color: ObservedStone) -> (r: bool)
        ensures
            r == connected(observed_board, check_color),
    {
        let mut row: i32 = 0;
        while row < 19
            invariant
                0 <= row <= 19,
                forall|r: int, c: int, d: int|
                    0 <= r < row && 0 <= c < 19 && 0 <= d < 4 ==> !#[trigger] five_at(
                        observed_board,
                        r,
                        c,
                        d,
                        check_color,
                    ),
            decreases 19 - row,
        {
            let mut column: i32 = 0;
            while column < 19
                invariant
                    0 <= row < 19,
                    0 <= column <= 19,
                    forall|r: int, c: int, d: int|
                        0 <= r < row && 0 <= c < 19 && 0 <= d < 4 ==> !#[trigger] five_at(
                            observed_board,
                            r,
                            c,
                            d,
                            check_color,
                        ),
                    forall|c: int, d: int|
                        0 <= c < column && 0 <= d < 4 ==> !#[trigger] five_at(
                            observed_board,
                            row as int,
                            c,
                            d,
                            check_color,
                        ),
                decreases 19 - column,
            {
                let around = Self::get_mass_around(&observed_board, row, column);
                let mut d: usize = 0;
                while d < 4
                    invariant
                        0 <= row < 19,
                        0 <= column < 19,
                        d <= 4,
                        forall|k: int, i: int|
                            0 <= k < 4 && 0 <= i < 5 ==> #[trigger] around[k][i] == window(
                                observed_board,
                                row as int,
                                column as int,
                                k,
                                i,
                            ),
                        forall|k: int|
                            0 <= k < d ==> !#[trigger] five_at(
                                observed_board,
                                row as int,
                                column as int,
                                k,
                                check_color,
                            ),
                    decreases 4 - d,
                {
                    let mut i: usize = 0;
                    let mut complete = true;
                    while i < 5
                        invariant
                            d < 4,
                            i <= 5,
                            forall|k: int, j: int|
                                0 <= k < 4 && 0 <= j < 5 ==> #[trigger] around[k][j] == window(
                                    observed_board,
                                    row as int,
                                    column as int,
                                    k,
                                    j,
                                ),
                            complete ==> forall|j: int|
                                0 <= j < i ==> #[trigger] around[d as int][j] == check_color,
                            !complete ==> !five_at(
                                observed_board,
                                row as int,
                                column as int,
                                d as int,
                                check_color,
                            ),
                        ensures
                            complete ==> forall|j: int|
                                0 <= j < 5 ==> #[trigger] around[d as int][j] == check_color,
                            !complete ==> !five_at(
                                observed_board,
                                row as int,
                                column as int,
                                d as int,
                                check_color,
                            ),
                        decreases 5 - i,
                    {
                        if around[d][i] != check_color {
                            complete = false;
                            break;
                        }
                        i = i + 1;
                    }
                    if complete {
                        assert forall|j: int| 0 <= j < 5 implies window(
                            observed_board,
                            row as int,
                            column as int,
                            d as int,
                            j,
                        ) == check_color by {
                            assert(around[d as int][j] == check_color);
                        }
                        assert(five_at(observed_board, row as int, column as int, d as int, check_color));
                        return true;
                    }
                    d = d + 1;
                }
                column = column + 1;
            }
            row = row + 1;
        }
        false
    }

    /// The winner of `observed_board`, the side to move breaking a tie.
    pub fn decide_winner(&self, observed_board: &[[ObservedStone; 19]; 19]) -> (r: ObservedStone)
        requires
            self.current_turn != Stone::Empty,
        ensures
            r == winner(*observed_board, self.current_turn),
    {
        let turn_player = match self.current_turn {
            Stone::Black90 | Stone::Black70 => ObservedStone::Black,
            _ => ObservedStone::White,
        };
        let is_black_connected = Self::is_mass_connected(*observed_board, ObservedStone::Black);
        let is_white_connected = Self::is_mass_connected(*observed_board, ObservedStone::White);
        match (is_black_connected, is_white_connected) {
            (true, false) => ObservedStone::Black,
            (false, true) => ObservedStone::White,
            (false, false) => ObservedStone::Empty,
            (true, true) => turn_player,
        }
    }

    /// Observes the board and names the winner of the observed board, if any.
    pub fn judge_winner(&self) -> (r: (ObservedStone, [[ObservedStone; 19]; 19]))
        requires
            self.current_turn != Stone::Empty,
        ensures
            r.0 == winner(r.1, self.current_turn),
            forall|i: int, j: int|
                on_board(i, j) ==> ((#[trigger] observed_at(r.1, i, j) == ObservedStone::Empty) == (
                stone_at(self.board, i, j) == Stone::Empty)),
    {
        let observed_board = self.create_observed_board();
        let winner = self.decide_winner(&observed_board);
        (winner, observed_board)
    }
}

} // verus!
