//! Rule engine of the 8x8 disc-flipping game.
use vstd::prelude::*;
use vstd::string::*;

verus! {

/// The content of one square; also names the side to move.
#[derive(Clone, Copy, Debug, PartialEq, Eq, Structural)]
pub enum Stone {
    NONE,
    WHITE,
    BLACK,
}

/// A board with the side to move.
#[derive(Clone, Copy, Debug)]
pub struct Reversi {
    pub board: [[Stone; 8]; 8],
    pub turn_stone: Stone,
}

/// The square at `(r, c)` of `b`.
pub open spec fn cell(b: [[Stone; 8]; 8], r: int, c: int) -> Stone {
    b[r][c]
}

/// `(r, c)` is a square of the board.
pub open spec fn in_board(r: int, c: int) -> bool {
    0 <= r < 8 && 0 <= c < 8
}

/// The opponent of `color`.
pub open spec fn rival(color: Stone) -> Stone {
    if color == Stone::BLACK {
        Stone::WHITE
    } else {
        Stone::BLACK
    }
}

/// The square content of the opening position.
pub open spec fn initial_cell(r: int, c: int) -> Stone {
    if (r == 3 && c == 3) || (r == 4 && c == 4) {
        Stone::WHITE
    } else if (r == 3 && c == 4) || (r == 4 && c == 3) {
        Stone::BLACK
    } else {
        Stone::NONE
    }
}


/// Row offset of direction `d`, in the order lower, upper, right, upper right,
/// lower right, left, upper left, lower left.
pub open spec fn dir_row(d: int) -> int {
    if d == 0 || d == 4 || d == 7 {
        1
    } else if d == 1 || d == 3 || d == 6 {
        -1
    } else {
        0
    }
}

/// Column offset of direction `d` (see `dir_row`).
pub open spec fn dir_col(d: int) -> int {
    if d == 2 || d == 3 || d == 4 {
        1
    } else if d == 5 || d == 6 || d == 7 {
        -1
    } else {
        0
    }
}

/// `k` steps of unit offset `d` (one of -1, 0, 1).
pub open spec fn step(k: int, d: int) -> int {
    if d > 0 {
        k
    } else if d < 0 {
        -k
    } else {
        0
    }
}

/// How many steps of offset `d` stay on the board from coordinate `x`.
pub open spec fn edge_steps(x: int, d: int) -> int {
    if d > 0 {
        7 - x
    } else if d < 0 {
        x
    } else {
        7
    }
}

/// Number of squares between `(r, c)` and the board's edge in direction `(dr, dc)`.
pub open spec fn ray_len(r: int, c: int, dr: int, dc: int) -> int {
    let a = edge_steps(r, dr);
    let b = edge_steps(c, dc);
    if a <= b {
        a
    } else {
        b
    }
}

/// The squares met when walking from `(r, c)` in direction `(dr, dc)`, up to the edge.
pub open spec fn ray(b: [[Stone; 8]; 8], r: int, c: int, dr: int, dc: int) -> Seq<Stone> {
    Seq::new(
        ray_len(r, c, dr, dc) as nat,
        |k: int| cell(b, r + step(k + 1, dr), c + step(k + 1, dc)),
    )
}

/// The first index at or after `i` whose stone is not `rv`.
pub open spec fn run_end(s: Seq<Stone>, rv: Stone, i: int) -> int
    decreases s.len() - i,
{
    if 0 <= i < s.len() && s[i] == rv {
        run_end(s, rv, i + 1)
    } else {
        i
    }
}

/// How many opposing stones a `color` stone captures along the squares `s`:
/// a run of one or more opposing stones closed by a `color` stone, or nothing.
pub open spec fn flank(s: Seq<Stone>, color: Stone) -> int {
    let e = run_end(s, rival(color), 0);
    if 1 <= e < s.len() && s[e] == color {
        e
    } else {
        0
    }
}

/// Stones that a `color` stone at `(r, c)` captures in direction `d`.
pub open spec fn flips_in_dir(b: [[Stone; 8]; 8], r: int, c: int, d: int, color: Stone) -> int {
    flank(ray(b, r, c, dir_row(d), dir_col(d)), color)
}

/// A `color` stone may be put at `(r, c)`: the square is empty and some
/// direction captures at least one opposing stone.
pub open spec fn legal(b: [[Stone; 8]; 8], r: int, c: int, color: Stone) -> bool {
    &&& in_board(r, c)
    &&& cell(b, r, c) == Stone::NONE
    &&& exists|d: int| #![trigger flips_in_dir(b, r, c, d, color)] 0 <= d < 8 && flips_in_dir(b, r, c, d, color) > 0
}

/// `(pr, pc)` is one of the first `n` squares from `(r, c)` in direction `(dr, dc)`.
pub open spec fn in_run(r: int, c: int, dr: int, dc: int, n: int, pr: int, pc: int) -> bool {
    exists|j: int| 1 <= j <= n && pr == r + #[trigger] step(j, dr) && pc == c + step(j, dc)
}

/// `(pr, pc)` is captured in direction `d` by a `color` stone put at `(r, c)`.
pub open spec fn dir_flips(
    b: [[Stone; 8]; 8],
    r: int,
    c: int,
    color: Stone,
    d: int,
    pr: int,
    pc: int,
) -> bool {
    in_run(r, c, dir_row(d), dir_col(d), flips_in_dir(b, r, c, d, color), pr, pc)
}

/// `(pr, pc)` is captured in one of the first `n` directions.
pub open spec fn flipped_upto(
    b: [[Stone; 8]; 8],
    r: int,
    c: int,
    color: Stone,
    n: int,
    pr: int,
    pc: int,
) -> bool
    decreases n,
{
    if n <= 0 {
        false
    } else {
        flipped_upto(b, r, c, color, n - 1, pr, pc) || dir_flips(b, r, c, color, n - 1, pr, pc)
    }
}

/// `(pr, pc)` is captured by a `color` stone put at `(r, c)`.
pub open spec fn flipped(b: [[Stone; 8]; 8], r: int, c: int, color: Stone, pr: int, pc: int) -> bool {
    flipped_upto(b, r, c, color, 8, pr, pc)
}

/// The square `(pr, pc)` after a `color` stone is put at `(r, c)`.
pub open spec fn placed_cell(
    b: [[Stone; 8]; 8],
    r: int,
    c: int,
    color: Stone,
    pr: int,
    pc: int,
) -> Stone {
    if (pr == r && pc == c) || flipped(b, r, c, color, pr, pc) {
        color
    } else {
        cell(b, pr, pc)
    }
}


/// `color` has a legal square somewhere on `b`.
pub open spec fn can_move(b: [[Stone; 8]; 8], color: Stone) -> bool {
    exists|i: int, j: int| #[trigger] legal(b, i, j, color)
}

/// The game is over: neither colour has a legal square.
pub open spec fn game_over(b: [[Stone; 8]; 8]) -> bool {
    !can_move(b, Stone::BLACK) && !can_move(b, Stone::WHITE)
}


/// Number of `j < n` for which `f(i, j)` holds.
pub open spec fn count_row(f: spec_fn(int, int) -> bool, i: int, n: int) -> int
    decreases n,
{
    if n <= 0 {
        0
    } else {
        count_row(f, i, n - 1) + if f(i, n - 1) {
            1int
        } else {
            0int
        }
    }
}

/// Number of squares in the first `m` rows for which `f` holds.
pub open spec fn count_rows(f: spec_fn(int, int) -> bool, m: int) -> int
    decreases m,
{
    if m <= 0 {
        0
    } else {
        count_rows(f, m - 1) + count_row(f, m - 1, 8)
    }
}

/// Number of squares of the board for which `f` holds.
pub open spec fn count_squares(f: spec_fn(int, int) -> bool) -> int {
    count_rows(f, 8)
}

/// Number of squares of `b` holding `s`.
pub open spec fn stone_count(b: [[Stone; 8]; 8], s: Stone) -> int {
    count_squares(|i: int, j: int| cell(b, i, j) == s)
}

/// Number of occupied squares of `b`.
pub open spec fn occupied_count(b: [[Stone; 8]; 8]) -> int {
    count_squares(|i: int, j: int| cell(b, i, j) != Stone::NONE)
}

/// Number of stones that a `color` stone put at `(r, c)` turns.
pub open spec fn flip_count(b: [[Stone; 8]; 8], r: int, c: int, color: Stone) -> int {
    count_squares(|i: int, j: int| flipped(b, r, c, color, i, j))
}

/// `after` is `before` with a `color` stone put at `(r, c)`.
pub open spec fn placed_from(
    before: [[Stone; 8]; 8],
    after: [[Stone; 8]; 8],
    r: int,
    c: int,
    color: Stone,
) -> bool {
    forall|i: int, j: int|
        in_board(i, j) ==> #[trigger] cell(after, i, j) == placed_cell(before, r, c, color, i, j)
}

proof fn lemma_count_row_split(
    f: spec_fn(int, int) -> bool,
    g: spec_fn(int, int) -> bool,
    h: spec_fn(int, int) -> bool,
    i: int,
    n: int,
)
    requires
        0 <= i < 8,
        n <= 8,
        forall|a: int, b: int| in_board(a, b) ==> f(a, b) == (g(a, b) || h(a, b)),
        forall|a: int, b: int| in_board(a, b) ==> !(g(a, b) && h(a, b)),
    ensures
        count_row(f, i, n) == count_row(g, i, n) + count_row(h, i, n),
    decreases n,
{
    if n > 0 {
        lemma_count_row_split(f, g, h, i, n - 1);
        assert(in_board(i, n - 1));
    }
}

proof fn lemma_count_split(
    f: spec_fn(int, int) -> bool,
    g: spec_fn(int, int) -> bool,
    h: spec_fn(int, int) -> bool,
    m: int,
)
    requires
        m <= 8,
        forall|a: int, b: int| in_board(a, b) ==> f(a, b) == (g(a, b) || h(a, b)),
        forall|a: int, b: int| in_board(a, b) ==> !(g(a, b) && h(a, b)),
    ensures
        count_rows(f, m) == count_rows(g, m) + count_rows(h, m),
    decreases m,
{
    if m > 0 {
        lemma_count_split(f, g, h, m - 1);
        lemma_count_row_split(f, g, h, m - 1, 8);
    }
}

proof fn lemma_count_row_single(r: int, c: int, i: int, n: int)
    requires
        in_board(r, c),
        n <= 8,
    ensures
        count_row(|a: int, b: int| a == r && b == c, i, n) == (if i == r && c < n {
            1int
        } else {
            0int
        }),
    decreases n,
{
    if n > 0 {
        lemma_count_row_single(r, c, i, n - 1);
    }
}

proof fn lemma_count_single(r: int, c: int, m: int)
    requires
        in_board(r, c),
        m <= 8,
    ensures
        count_rows(|a: int, b: int| a == r && b == c, m) == (if r < m {
            1int
        } else {
            0int
        }),
    decreases m,
{
    if m > 0 {
        lemma_count_single(r, c, m - 1);
        lemma_count_row_single(r, c, m - 1, 8);
    }
}

proof fn lemma_count_row_nonneg(f: spec_fn(int, int) -> bool, i: int, n: int)
    ensures
        count_row(f, i, n) >= 0,
    decreases n,
{
    if n > 0 {
        lemma_count_row_nonneg(f, i, n - 1);
    }
}

proof fn lemma_count_nonneg(f: spec_fn(int, int) -> bool, m: int)
    ensures
        count_rows(f, m) >= 0,
    decreases m,
{
    if m > 0 {
        lemma_count_nonneg(f, m - 1);
        lemma_count_row_nonneg(f, m - 1, 8);
    }
}

/// A predicate that holds on some square of the board counts at least one.
proof fn lemma_count_positive(f: spec_fn(int, int) -> bool, r: int, c: int)
    requires
        in_board(r, c),
        f(r, c),
    ensures
        count_squares(f) >= 1,
{
    let single = |a: int, b: int| a == r && b == c;
    let rest = |a: int, b: int| f(a, b) && !(a == r && b == c);
    lemma_count_split(f, single, rest, 8);
    lemma_count_single(r, c, 8);
    lemma_count_nonneg(rest, 8);
}

proof fn lemma_flipped_upto_intro(
    b: [[Stone; 8]; 8],
    r: int,
    c: int,
    color: Stone,
    n: int,
    d: int,
    i: int,
    j: int,
)
    requires
        0 <= d < n,
        dir_flips(b, r, c, color, d, i, j),
    ensures
        flipped_upto(b, r, c, color, n, i, j),
    decreases n,
{
    if d < n - 1 {
        lemma_flipped_upto_intro(b, r, c, color, n - 1, d, i, j);
    }
}


proof fn lemma_run_end(s: Seq<Stone>, rv: Stone, i: int)
    requires
        0 <= i <= s.len(),
    ensures
        i <= run_end(s, rv, i) <= s.len(),
        forall|k: int| i <= k < run_end(s, rv, i) ==> s[k] == rv,
    decreases s.len() - i,
{
    if i < s.len() && s[i] == rv {
        lemma_run_end(s, rv, i + 1);
    }
}

proof fn lemma_dir_flips_cell(b: [[Stone; 8]; 8], r: int, c: int, color: Stone, d: int, i: int, j: int)
    requires
        in_board(r, c),
        0 <= d < 8,
        dir_flips(b, r, c, color, d, i, j),
    ensures
        in_board(i, j),
        !(i == r && j == c),
        cell(b, i, j) == rival(color),
{
    let s = ray(b, r, c, dir_row(d), dir_col(d));
    lemma_run_end(s, rival(color), 0);
    let n = flips_in_dir(b, r, c, d, color);
    let w = choose|w: int|
        1 <= w <= n && i == r + #[trigger] step(w, dir_row(d)) && j == c + step(w, dir_col(d));
    assert(s[w - 1] == rival(color));
}

proof fn lemma_flipped_upto_cell(b: [[Stone; 8]; 8], r: int, c: int, color: Stone, n: int, i: int, j: int)
    requires
        in_board(r, c),
        n <= 8,
        flipped_upto(b, r, c, color, n, i, j),
    ensures
        in_board(i, j),
        !(i == r && j == c),
        cell(b, i, j) == rival(color),
    decreases n,
{
    if flipped_upto(b, r, c, color, n - 1, i, j) {
        lemma_flipped_upto_cell(b, r, c, color, n - 1, i, j);
    } else {
        lemma_dir_flips_cell(b, r, c, color, n - 1, i, j);
    }
}

/// A captured square lies on the board, is not the square played, and holds
/// an opposing stone.
pub proof fn lemma_flipped_cell(b: [[Stone; 8]; 8], r: int, c: int, color: Stone, i: int, j: int)
    requires
        in_board(r, c),
        flipped(b, r, c, color, i, j),
    ensures
        in_board(i, j),
        !(i == r && j == c),
        cell(b, i, j) == rival(color),
{
    lemma_flipped_upto_cell(b, r, c, color, 8, i, j);
}

/// Putting a stone never lowers the number of stones on the board: it adds
/// exactly one. The mover gains one stone plus every stone turned, and the
/// opponent loses every stone turned.
pub proof fn lemma_place_counts(
    before: [[Stone; 8]; 8],
    after: [[Stone; 8]; 8],
    r: int,
    c: int,
    color: Stone,
)
    requires
        color != Stone::NONE,
        legal(before, r, c, color),
        placed_from(before, after, r, c, color),
    ensures
        occupied_count(after) == occupied_count(before) + 1,
        stone_count(after, color) == stone_count(before, color) + 1 + flip_count(before, r, c, color),
        stone_count(after, rival(color)) == stone_count(before, rival(color)) - flip_count(
            before,
            r,
            c,
            color,
        ),
        flip_count(before, r, c, color) >= 1,
        flip_count(before, r, c, color) == count_squares(
            |i: int, j: int|
                !(i == r && j == c) && cell(before, i, j) == rival(color) && cell(after, i, j)
                    == color,
        ),
{
    let occ_after = |i: int, j: int| cell(after, i, j) != Stone::NONE;
    let occ_before = |i: int, j: int| cell(before, i, j) != Stone::NONE;
    let target = |i: int, j: int| i == r && j == c;
    let flips = |i: int, j: int| flipped(before, r, c, color, i, j);
    let mine_after = |i: int, j: int| cell(after, i, j) == color;
    let mine_before = |i: int, j: int| cell(before, i, j) == color;
    let theirs_after = |i: int, j: int| cell(after, i, j) == rival(color);
    let theirs_before = |i: int, j: int| cell(before, i, j) == rival(color);
    let gained = |i: int, j: int| flipped(before, r, c, color, i, j) || (i == r && j == c);
    assert forall|i: int, j: int| in_board(i, j) && flipped(before, r, c, color, i, j) implies !(i == r
        && j == c) && cell(before, i, j) == rival(color) by {
        lemma_flipped_cell(before, r, c, color, i, j);
    }
    assert forall|i: int, j: int| in_board(i, j) implies cell(after, i, j) == placed_cell(
        before,
        r,
        c,
        color,
        i,
        j,
    ) by {}
    lemma_count_split(occ_after, occ_before, target, 8);
    lemma_count_single(r, c, 8);
    lemma_count_split(gained, flips, target, 8);
    lemma_count_split(mine_after, mine_before, gained, 8);
    lemma_count_split(theirs_before, theirs_after, flips, 8);
    let changed = |i: int, j: int|
        !(i == r && j == c) && cell(before, i, j) == rival(color) && cell(after, i, j) == color;
    let nothing = |i: int, j: int| false;
    lemma_count_split(changed, flips, nothing, 8);
    lemma_count_nonneg(nothing, 8);
    lemma_count_split(nothing, nothing, nothing, 8);
    let d = choose|d: int|
        #![trigger flips_in_dir(before, r, c, d, color)]
        0 <= d < 8 && flips_in_dir(before, r, c, d, color) > 0;
    let fi = r + step(1, dir_row(d));
    let fj = c + step(1, dir_col(d));
    assert(dir_flips(before, r, c, color, d, fi, fj));
    lemma_flipped_upto_intro(before, r, c, color, 8, d, fi, fj);
    lemma_flipped_cell(before, r, c, color, fi, fj);
    lemma_count_positive(flips, fi, fj);
}

/// A board without an empty square ends the game: no colour can move.
pub proof fn lemma_full_board_game_over(b: [[Stone; 8]; 8])
    requires
        forall|i: int, j: int| in_board(i, j) ==> cell(b, i, j) != Stone::NONE,
    ensures
        game_over(b),
        !can_move(b, Stone::BLACK),
        !can_move(b, Stone::WHITE),
{
}

/// No capture chain, no move: a square none of whose neighbours holds an
/// opposing stone is never a legal square.
pub proof fn lemma_no_adjacent_rival_illegal(b: [[Stone; 8]; 8], r: int, c: int, color: Stone)
    requires
        in_board(r, c),
        forall|d: int|
            0 <= d < 8 && in_board(r + dir_row(d), c + dir_col(d)) ==> cell(
                b,
                r + dir_row(d),
                c + dir_col(d),
            ) != rival(color),
    ensures
        !legal(b, r, c, color),
{
    assert forall|d: int| 0 <= d < 8 implies #[trigger] flips_in_dir(b, r, c, d, color) == 0 by {
        let s = ray(b, r, c, dir_row(d), dir_col(d));
        if s.len() > 0 {
            assert(s[0] == cell(b, r + dir_row(d), c + dir_col(d)));
            assert(s[0] != rival(color));
            assert(run_end(s, rival(color), 0) == 0);
        } else {
            assert(run_end(s, rival(color), 0) == 0);
        }
    }
}

/// The squares seen from `(r, c)` in direction `d`; nothing when `(r, c)` is occupied.
spec fn side_ray(b: [[Stone; 8]; 8], r: int, c: int, d: int) -> Seq<Stone> {
    if cell(b, r, c) == Stone::NONE {
        ray(b, r, c, dir_row(d), dir_col(d))
    } else {
        Seq::empty()
    }
}


/// The header line of the text board: a corner and the column digits 1 to 8.
pub open spec fn header_text() -> Seq<char> {
    "\u{1f7e6}1\u{fe0f}\u{20e3}2\u{fe0f}\u{20e3}3\u{fe0f}\u{20e3}4\u{fe0f}\u{20e3}5\u{fe0f}\u{20e3}6\u{fe0f}\u{20e3}7\u{fe0f}\u{20e3}8\u{fe0f}\u{20e3}\n"@
}

/// The label of row `r`: the regional indicator letters A to H.
pub open spec fn row_label(r: int) -> Seq<char> {
    if r == 0 {
        "\u{1f1e6}"@
    } else if r == 1 {
        "\u{1f1e7}"@
    } else if r == 2 {
        "\u{1f1e8}"@
    } else if r == 3 {
        "\u{1f1e9}"@
    } else if r == 4 {
        "\u{1f1ea}"@
    } else if r == 5 {
        "\u{1f1eb}"@
    } else if r == 6 {
        "\u{1f1ec}"@
    } else {
        "\u{1f1ed}"@
    }
}

/// The glyph of square `(r, c)`: a white or a blue disc for the stones, and
/// for an empty square a small square, hollow where `turn` may play.
pub open spec fn glyph(b: [[Stone; 8]; 8], turn: Stone, r: int, c: int) -> Seq<char> {
    match cell(b, r, c) {
        Stone::NONE => if legal(b, r, c, turn) {
            "\u{25ab}\u{fe0f}"@
        } else {
            "\u{25fd}"@
        },
        Stone::WHITE => "\u{26aa}"@,
        Stone::BLACK => "\u{1f535}"@,
    }
}

/// The glyphs of the first `n` squares of row `r`.
pub open spec fn row_glyphs(b: [[Stone; 8]; 8], turn: Stone, r: int, n: int) -> Seq<char>
    decreases n,
{
    if n <= 0 {
        Seq::empty()
    } else {
        row_glyphs(b, turn, r, n - 1) + glyph(b, turn, r, n - 1)
    }
}

/// The text of the first `m` rows: label, glyphs and a line break each.
pub open spec fn rows_text(b: [[Stone; 8]; 8], turn: Stone, m: int) -> Seq<char>
    decreases m,
{
    if m <= 0 {
        Seq::empty()
    } else {
        rows_text(b, turn, m - 1) + row_label(m - 1) + row_glyphs(b, turn, m - 1, 8) + "\n"@
    }
}

/// The whole text board as seen by `turn`.
pub open spec fn board_text(b: [[Stone; 8]; 8], turn: Stone) -> Seq<char> {
    header_text() + rows_text(b, turn, 8)
}

/// The colour with more stones, `NONE` for a draw.
pub open spec fn leader(black: int, white: int) -> Stone {
    if black > white {
        Stone::BLACK
    } else if black < white {
        Stone::WHITE
    } else {
        Stone::NONE
    }
}

/// The colour with more stones at the end of a game, `NONE` for a draw.
pub fn winner_of(black: u32, white: u32) -> (r: Stone)
    ensures
        r == leader(black as int, white as int),
{
    if black > white {
        Stone::BLACK
    } else if black < white {
        Stone::WHITE
    } else {
        Stone::NONE
    }
}

/// Walking state along one direction: the stones met and the unit offset.
struct SideStones {
    stones: Vec<Stone>,
    move_row: i32,
    move_column: i32,
}

impl SideStones {
    fn new(move_row: i32, move_column: i32) -> (r: Self)
        ensures
            r.stones@ == Seq::<Stone>::empty(),
            r.move_row == move_row,
            r.move_column == move_column,
    {
        SideStones { stones: Vec::new(), move_row, move_column }
    }
}

/// Length of the leading run of `rival(color)` stones closed by a `color` stone, else 0.
fn flank_len(stones: &Vec<Stone>, color: Stone) -> (n: usize)
    ensures
        n == flank(stones@, color),
{
    let rv = if color == Stone::BLACK {
        Stone::WHITE
    } else {
        Stone::BLACK
    };
    let mut e: usize = 0;
    while e < stones.len() && stones[e] == rv
        invariant
            e <= stones@.len(),
            rv == rival(color),
            run_end(stones@, rv, 0) == run_end(stones@, rv, e as int),
        decreases stones@.len() - e,
    {
        e = e + 1;
    }
    if 1 <= e && e < stones.len() && stones[e] == color {
        e
    } else {
        0
    }
}

impl Reversi {
    /// The opening position: two stones of each colour in the centre, Black to move.
    pub fn new() -> (r: Self)
        ensures
            r.turn_stone == Stone::BLACK,
            forall|i: int, j: int| in_board(i, j) ==> cell(r.board, i, j) == initial_cell(i, j),
    {
        let mut board = [[Stone::NONE; 8]; 8];
        board[3][3] = Stone::WHITE;
        board[4][4] = Stone::WHITE;
        board[3][4] = Stone::BLACK;
        board[4][3] = Stone::BLACK;
        Reversi { board, turn_stone: Stone::BLACK }
    }


    /// The square at `(row, column)`, or an error off the board.
    fn square_state(&self, row: i32, column: i32) -> (r: Result<Stone, String>)
        ensures
            in_board(row as int, column as int) ==> r == Ok::<Stone, String>(
                cell(self.board, row as int, column as int),
            ),
            !in_board(row as int, column as int) ==> (r matches Err(e) && e@ == "OutofRange"@),
    {
        if 0 <= row && row <= 7 && 0 <= column && column <= 7 {
            Ok(self.board[row as usize][column as usize])
        } else {
            Err(String::from_str("OutofRange"))
        }
    }

    /// The stones from `(row, column)` to the edge in direction `(move_row, move_column)`.
    fn walk(&self, row: i32, column: i32, move_row: i32, move_column: i32) -> (r: SideStones)
        requires
            in_board(row as int, column as int),
            -1 <= move_row <= 1,
            -1 <= move_column <= 1,
            move_row != 0 || move_column != 0,
        ensures
            r.move_row == move_row,
            r.move_column == move_column,
            r.stones@ == ray(
                self.board,
                row as int,
                column as int,
                move_row as int,
                move_column as int,
            ),
    {
        let ghost full = ray(self.board, row as int, column as int, move_row as int, move_column as int);
        let mut side = SideStones::new(move_row, move_column);
        let mut cur_row = row;
        let mut cur_column = column;
        let mut i: usize = 0;
        loop
            invariant
                i <= ray_len(row as int, column as int, move_row as int, move_column as int),
                cur_row == row + step(i as int, move_row as int),
                cur_column == column + step(i as int, move_column as int),
                side.move_row == move_row,
                side.move_column == move_column,
                side.stones@ == full.take(i as int),
                full == ray(self.board, row as int, column as int, move_row as int, move_column as int),
                -1 <= move_row <= 1,
                -1 <= move_column <= 1,
                move_row != 0 || move_column != 0,
                in_board(row as int, column as int),
            ensures
                i == ray_len(row as int, column as int, move_row as int, move_column as int),
                side.stones@ == full.take(i as int),
                side.move_row == move_row,
                side.move_column == move_column,
            decreases 8 - i,
        {
            let next_row = cur_row + side.move_row;
            let next_column = cur_column + side.move_column;
            match self.square_state(next_row, next_column) {
                Ok(stone) => {
                    assert(next_row == row + step(i + 1, move_row as int));
                    assert(next_column == column + step(i + 1, move_column as int));
                    assert(i + 1 <= ray_len(row as int, column as int, move_row as int, move_column as int));
                    assert(stone == full[i as int]);
                    side.stones.push(stone);
                    cur_row = next_row;
                    cur_column = next_column;
                    i = i + 1;
                    assert(side.stones@ =~= full.take(i as int));
                },
                Err(_) => {
                    assert(next_row == row + step(i + 1, move_row as int));
                    assert(next_column == column + step(i + 1, move_column as int));
                    assert(i == ray_len(row as int, column as int, move_row as int, move_column as int));
                    break ;
                },
            }
        }
        assert(side.stones@ =~= full);
        side
    }


    /// The stones seen from `(row, column)` in each of the eight directions; all
    /// empty when the square is occupied.
    fn sidestones_array(&self, row: i32, column: i32) -> (r: [SideStones; 8])
        requires
            in_board(row as int, column as int),
        ensures
            forall|d: int|
                #![trigger r[d]]
                0 <= d < 8 ==> {
                    &&& r[d].move_row == dir_row(d)
                    &&& r[d].move_column == dir_col(d)
                    &&& r[d].stones@ == side_ray(self.board, row as int, column as int, d)
                },
    {
        if self.board[row as usize][column as usize] != Stone::NONE {
            return [
                SideStones::new(1, 0),
                SideStones::new(-1, 0),
                SideStones::new(0, 1),
                SideStones::new(-1, 1),
                SideStones::new(1, 1),
                SideStones::new(0, -1),
                SideStones::new(-1, -1),
                SideStones::new(1, -1),
            ];
        }
        let lower = self.walk(row, column, 1, 0);
        let upper = self.walk(row, column, -1, 0);
        let right = self.walk(row, column, 0, 1);
        let upper_right = self.walk(row, column, -1, 1);
        let lower_right = self.walk(row, column, 1, 1);
        let left = self.walk(row, column, 0, -1);
        let upper_left = self.walk(row, column, -1, -1);
        let lower_left = self.walk(row, column, 1, -1);
        [lower, upper, right, upper_right, lower_right, left, upper_left, lower_left]
    }

    /// Whether a `self_color` stone may be put at `(row, column)`.
    pub fn can_place_square(&self, row: i32, column: i32, self_color: Stone) -> (r: bool)
        requires
            in_board(row as int, column as int),
            self_color != Stone::NONE,
        ensures
            r == legal(self.board, row as int, column as int, self_color),
    {
        let sides = self.sidestones_array(row, column);
        let mut d: usize = 0;
        while d < 8
            invariant
                d <= 8,
                in_board(row as int, column as int),
                self_color != Stone::NONE,
                forall|k: int|
                    #![trigger sides[k]]
                    0 <= k < 8 ==> {
                        &&& sides[k].move_row == dir_row(k)
                        &&& sides[k].move_column == dir_col(k)
                        &&& sides[k].stones@ == side_ray(self.board, row as int, column as int, k)
                    },
                forall|k: int|
                    0 <= k < d ==> flank(
                        #[trigger] side_ray(self.board, row as int, column as int, k),
                        self_color,
                    ) == 0,
            decreases 8 - d,
        {
            let n = flank_len(&sides[d].stones, self_color);
            if n > 0 {
                assert(sides[d as int].move_row == dir_row(d as int));
                proof {
                    if cell(self.board, row as int, column as int) != Stone::NONE {
                        let e = side_ray(self.board, row as int, column as int, d as int);
                        assert(e =~= Seq::<Stone>::empty());
                        assert(run_end(e, rival(self_color), 0) == 0);
                        assert(flank(e, self_color) == 0);
                    }
                }
                assert(flips_in_dir(self.board, row as int, column as int, d as int, self_color) > 0);
                return true;
            }
            d = d + 1;
        }
        proof {
            if legal(self.board, row as int, column as int, self_color) {
                let k = choose|k: int|
                    #![trigger flips_in_dir(self.board, row as int, column as int, k, self_color)]
                    0 <= k < 8 && flips_in_dir(self.board, row as int, column as int, k, self_color) > 0;
                assert(sides[k].move_row == dir_row(k));
                assert(false);
            }
        }
        false
    }

    /// Sets the first `n` squares from `(row, column)` in direction
    /// `(move_row, move_column)` to `color`.
    fn flip_run(&mut self, row: i32, column: i32, move_row: i32, move_column: i32, n: usize, color: Stone)
        requires
            in_board(row as int, column as int),
            -1 <= move_row <= 1,
            -1 <= move_column <= 1,
            move_row != 0 || move_column != 0,
            n <= ray_len(row as int, column as int, move_row as int, move_column as int),
        ensures
            final(self).turn_stone == old(self).turn_stone,
            forall|i: int, j: int|
                in_board(i, j) ==> cell(final(self).board, i, j) == (if in_run(
                    row as int,
                    column as int,
                    move_row as int,
                    move_column as int,
                    n as int,
                    i,
                    j,
                ) {
                    color
                } else {
                    cell(old(self).board, i, j)
                }),
    {
        let mut cur_row = row;
        let mut cur_column = column;
        let mut k: usize = 0;
        while k < n
            invariant
                k <= n,
                n <= ray_len(row as int, column as int, move_row as int, move_column as int),
                in_board(row as int, column as int),
                -1 <= move_row <= 1,
                -1 <= move_column <= 1,
                move_row != 0 || move_column != 0,
                cur_row == row + step(k as int, move_row as int),
                cur_column == column + step(k as int, move_column as int),
                self.turn_stone == old(self).turn_stone,
                forall|i: int, j: int|
                    in_board(i, j) ==> cell(self.board, i, j) == (if in_run(
                        row as int,
                        column as int,
                        move_row as int,
                        move_column as int,
                        k as int,
                        i,
                        j,
                    ) {
                        color
                    } else {
                        cell(old(self).board, i, j)
                    }),
            decreases n - k,
        {
            cur_row = cur_row + move_row;
            cur_column = cur_column + move_column;
            assert(cur_row == row + step(k + 1, move_row as int));
            assert(cur_column == column + step(k + 1, move_column as int));
            let ghost prev = self.board;
            self.board[cur_row as usize][cur_column as usize] = color;
            k = k + 1;
            assert forall|i: int, j: int| in_board(i, j) implies cell(self.board, i, j) == (if in_run(
                row as int,
                column as int,
                move_row as int,
                move_column as int,
                k as int,
                i,
                j,
            ) {
                color
            } else {
                cell(old(self).board, i, j)
            }) by {
                if i == cur_row && j == cur_column {
                    assert(in_run(
                        row as int,
                        column as int,
                        move_row as int,
                        move_column as int,
                        k as int,
                        i,
                        j,
                    ));
                } else {
                    if in_run(
                        row as int,
                        column as int,
                        move_row as int,
                        move_column as int,
                        k as int,
                        i,
                        j,
                    ) {
                        let w = choose|w: int|
                            1 <= w <= k && i == row + #[trigger] step(w, move_row as int) && j
                                == column + step(w, move_column as int);
                        assert(w != k);
                        assert(in_run(
                            row as int,
                            column as int,
                            move_row as int,
                            move_column as int,
                            k - 1,
                            i,
                            j,
                        ));
                    }
                }
            }
        }
    }

    /// Puts a `self_color` stone at `(row, column)` and turns every captured
    /// stone; refuses an illegal square and then leaves the board as it was.
    /// The side to move is not changed.
    pub fn do_place(&mut self, row: i32, column: i32, self_color: Stone) -> (r: Result<String, String>)
        requires
            in_board(row as int, column as int),
            self_color != Stone::NONE,
        ensures
            (r is Ok) == legal(old(self).board, row as int, column as int, self_color),
            r matches Ok(m) ==> m@ == "Placed"@,
            r matches Err(e) ==> e@ == "CannotPlaced"@,
            final(self).turn_stone == old(self).turn_stone,
            !legal(old(self).board, row as int, column as int, self_color) ==> final(self).board
                == old(self).board,
            legal(old(self).board, row as int, column as int, self_color) ==> forall|i: int, j: int|
                in_board(i, j) ==> #[trigger] cell(final(self).board, i, j) == placed_cell(
                    old(self).board,
                    row as int,
                    column as int,
                    self_color,
                    i,
                    j,
                ),
            legal(old(self).board, row as int, column as int, self_color) ==> occupied_count(
                final(self).board,
            ) == occupied_count(old(self).board) + 1,
            legal(old(self).board, row as int, column as int, self_color) ==> stone_count(
                final(self).board,
                self_color,
            ) == stone_count(old(self).board, self_color) + 1 + flip_count(
                old(self).board,
                row as int,
                column as int,
                self_color,
            ),
            legal(old(self).board, row as int, column as int, self_color) ==> stone_count(
                final(self).board,
                rival(self_color),
            ) == stone_count(old(self).board, rival(self_color)) - flip_count(
                old(self).board,
                row as int,
                column as int,
                self_color,
            ),
            legal(old(self).board, row as int, column as int, self_color) ==> flip_count(
                old(self).board,
                row as int,
                column as int,
                self_color,
            ) >= 1,
    {
        if !self.can_place_square(row, column, self_color) {
            return Err(String::from_str("CannotPlaced"));
        }
        let ghost b0 = self.board;
        let sides = self.sidestones_array(row, column);
        let mut d: usize = 0;
        while d < 8
            invariant
                d <= 8,
                in_board(row as int, column as int),
                self_color != Stone::NONE,
                cell(b0, row as int, column as int) == Stone::NONE,
                self.turn_stone == old(self).turn_stone,
                b0 == old(self).board,
                forall|k: int|
                    #![trigger sides[k]]
                    0 <= k < 8 ==> {
                        &&& sides[k].move_row == dir_row(k)
                        &&& sides[k].move_column == dir_col(k)
                        &&& sides[k].stones@ == ray(b0, row as int, column as int, dir_row(k), dir_col(k))
                    },
                forall|i: int, j: int|
                    in_board(i, j) ==> cell(self.board, i, j) == (if flipped_upto(
                        b0,
                        row as int,
                        column as int,
                        self_color,
                        d as int,
                        i,
                        j,
                    ) {
                        self_color
                    } else {
                        cell(b0, i, j)
                    }),
            decreases 8 - d,
        {
            assert(sides[d as int].move_row == dir_row(d as int));
            let n = flank_len(&sides[d].stones, self_color);
            self.flip_run(row, column, sides[d].move_row, sides[d].move_column, n, self_color);
            d = d + 1;
        }
        self.board[row as usize][column as usize] = self_color;
        proof {
            lemma_place_counts(b0, self.board, row as int, column as int, self_color);
        }
        Ok(String::from_str("Placed"))
    }

    /// Whether `self_color` has a legal square anywhere on the board.
    pub fn player_can_place(&self, self_color: Stone) -> (r: bool)
        requires
            self_color != Stone::NONE,
        ensures
            r == can_move(self.board, self_color),
    {
        let mut row: i32 = 0;
        while row < 8
            invariant
                0 <= row <= 8,
                self_color != Stone::NONE,
                forall|i: int, j: int| 0 <= i < row ==> !#[trigger] legal(self.board, i, j, self_color),
            decreases 8 - row,
        {
            let mut column: i32 = 0;
            while column < 8
                invariant
                    0 <= row < 8,
                    0 <= column <= 8,
                    self_color != Stone::NONE,
                    forall|i: int, j: int|
                        0 <= i < row ==> !#[trigger] legal(self.board, i, j, self_color),
                    forall|j: int| 0 <= j < column ==> !#[trigger] legal(self.board, row as int, j, self_color),
                decreases 8 - column,
            {
                if self.can_place_square(row, column, self_color) {
                    return true;
                }
                column = column + 1;
            }
            row = row + 1;
        }
        false
    }

    /// Whether neither colour can put a stone anywhere.
    pub fn is_game_end(&self) -> (r: bool)
        ensures
            r == game_over(self.board),
    {
        if self.player_can_place(Stone::BLACK) || self.player_can_place(Stone::WHITE) {
            false
        } else {
            true
        }
    }


    /// The text board, with the squares where the side to move may play marked.
    pub fn print_board(&self) -> (r: String)
        requires
            self.turn_stone != Stone::NONE,
        ensures
            r@ == board_text(self.board, self.turn_stone),
    {
        let mut board = String::from_str(
            "\u{1f7e6}1\u{fe0f}\u{20e3}2\u{fe0f}\u{20e3}3\u{fe0f}\u{20e3}4\u{fe0f}\u{20e3}5\u{fe0f}\u{20e3}6\u{fe0f}\u{20e3}7\u{fe0f}\u{20e3}8\u{fe0f}\u{20e3}\n",
        );
        let mut row: usize = 0;
        while row < 8
            invariant
                row <= 8,
                self.turn_stone != Stone::NONE,
                board@ == header_text() + rows_text(self.board, self.turn_stone, row as int),
            decreases 8 - row,
        {
            let ghost before = board@;
            let label = if row == 0 {
                "\u{1f1e6}"
            } else if row == 1 {
                "\u{1f1e7}"
            } else if row == 2 {
                "\u{1f1e8}"
            } else if row == 3 {
                "\u{1f1e9}"
            } else if row == 4 {
                "\u{1f1ea}"
            } else if row == 5 {
                "\u{1f1eb}"
            } else if row == 6 {
                "\u{1f1ec}"
            } else {
                "\u{1f1ed}"
            };
            board.append(label);
            let mut column: usize = 0;
            while column < 8
                invariant
                    row < 8,
                    column <= 8,
                    self.turn_stone != Stone::NONE,
                    board@ == before + row_label(row as int) + row_glyphs(
                        self.board,
                        self.turn_stone,
                        row as int,
                        column as int,
                    ),
                decreases 8 - column,
            {
                let glyph = match self.board[row][column] {
                    Stone::NONE => {
                        if self.can_place_square(row as i32, column as i32, self.turn_stone) {
                            "\u{25ab}\u{fe0f}"
                        } else {
                            "\u{25fd}"
                        }
                    },
                    Stone::WHITE => "\u{26aa}",
                    Stone::BLACK => "\u{1f535}",
                };
                board.append(glyph);
                column = column + 1;
                assert(board@ =~= before + row_label(row as int) + row_glyphs(
                    self.board,
                    self.turn_stone,
                    row as int,
                    column as int,
                ));
            }
            board.append("\n");
            row = row + 1;
            assert(board@ =~= header_text() + rows_text(self.board, self.turn_stone, row as int));
        }
        board
    }


    /// Number of squares holding `stone`.
    pub fn count_stone(&self, stone: Stone) -> (r: u32)
        ensures
            r == stone_count(self.board, stone),
    {
        let ghost f = |i: int, j: int| cell(self.board, i, j) == stone;
        let mut total: u32 = 0;
        let mut row: usize = 0;
        while row < 8
            invariant
                row <= 8,
                f == (|i: int, j: int| cell(self.board, i, j) == stone),
                total == count_rows(f, row as int),
                total <= 8 * row,
            decreases 8 - row,
        {
            let mut column: usize = 0;
            let ghost base = total;
            while column < 8
                invariant
                    row < 8,
                    column <= 8,
                    f == (|i: int, j: int| cell(self.board, i, j) == stone),
                    base == count_rows(f, row as int),
                    base <= 8 * row,
                    total == base + count_row(f, row as int, column as int),
                    total <= base + column,
                decreases 8 - column,
            {
                if self.board[row][column] == stone {
                    total = total + 1;
                }
                column = column + 1;
            }
            row = row + 1;
        }
        total
    }

    /// Hands the move to the other colour.
    pub fn switch_turn(&mut self)
        ensures
            final(self).board == old(self).board,
            final(self).turn_stone == (if old(self).turn_stone == Stone::BLACK {
                Stone::WHITE
            } else {
                Stone::BLACK
            }),
    {
        if self.turn_stone == Stone::BLACK {
            self.turn_stone = Stone::WHITE;
        } else {
            self.turn_stone = Stone::BLACK;
        }
    }
}

} // verus!
