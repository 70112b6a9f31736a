//! The turn protocol of a match: choosing a row and a column, then putting
//! the stone, each refused unless the actor is the player to move.
use vstd::prelude::*;
use vstd::string::*;
use crate::gomoku::{
    ObservedStone,
    Stone as QStone,
    next_turn,
    observed_at,
    on_board,
    stone_at,
    winner,
};
use crate::reversi::{
    Reversi,
    Stone,
    can_move,
    cell,
    game_over,
    in_board,
    initial_cell,
    leader,
    legal,
    placed_from,
    rival,
    stone_count,
    winner_of,
};
use crate::session::{MatchError, MatchStore, QGStats, QGStatsUser, RStats, RStatsUser};

verus! {

/// The index of the one character of `s` counted from `first`, when it is
/// one of the `n` characters from `first` on.
pub open spec fn char_index(s: Seq<char>, first: char, n: int) -> Option<int> {
    if s.len() == 1 && first as int <= s[0] as int && (s[0] as int) < first as int + n {
        Some(s[0] as int - first as int)
    } else {
        None
    }
}

/// `c` is one of the decimal digits.
pub open spec fn is_digit(c: char) -> bool {
    '0' <= c && c <= '9'
}

/// The value of the decimal digit `c`.
pub open spec fn digit_value(c: char) -> int {
    c as int - '0' as int
}

/// The index named by a numeral of one or two digits counted from 1.
pub open spec fn numeral_index(s: Seq<char>) -> Option<int> {
    if s.len() == 1 && is_digit(s[0]) && digit_value(s[0]) >= 1 {
        Some(digit_value(s[0]) - 1)
    } else if s.len() == 2 && is_digit(s[0]) && is_digit(s[1]) && digit_value(s[0]) >= 1 {
        Some(10 * digit_value(s[0]) + digit_value(s[1]) - 1)
    } else {
        None
    }
}

/// The index of `label` counted from `first`, when it is one character among
/// the `n` from `first` on.
pub fn label_index(label: &String, first: char, n: u32) -> (r: Option<usize>)
    requires
        first as u32 + n <= 0x10ffff,
    ensures
        r is Some <==> char_index(label@, first, n as int) is Some,
        r matches Some(i) ==> i == char_index(label@, first, n as int)->Some_0,
{
    let s = label.as_str();
    if s.unicode_len() != 1 {
        return None;
    }
    let c = s.get_char(0);
    let code = c as u32;
    let base = first as u32;
    if base <= code && code < base + n {
        Some((code - base) as usize)
    } else {
        None
    }
}

/// The index named by `label`, a numeral of one or two digits counted from 1.
pub fn numeral_label_index(label: &String) -> (r: Option<usize>)
    ensures
        r is Some <==> numeral_index(label@) is Some,
        r matches Some(i) ==> i == numeral_index(label@)->Some_0,
{
    let s = label.as_str();
    let len = s.unicode_len();
    if len == 1 {
        let d = s.get_char(0) as u32;
        if 0x31 <= d && d <= 0x39 {
            return Some((d - 0x31) as usize);
        }
    } else if len == 2 {
        let t = s.get_char(0) as u32;
        let u = s.get_char(1) as u32;
        if 0x31 <= t && t <= 0x39 && 0x30 <= u && u <= 0x39 {
            return Some((10 * (t - 0x30) + (u - 0x30) - 1) as usize);
        }
    }
    None
}

/// Every match of the store has both participants and a colour to move.
pub open spec fn reversi_sessions_ok(m: Map<u64, RStats>) -> bool {
    forall|ch: u64| #[trigger] m.contains_key(ch) ==> m[ch].wf()
}

/// Every match of the store has both participants and a side to move.
pub open spec fn gomoku_sessions_ok(m: Map<u64, QGStats>) -> bool {
    forall|ch: u64| #[trigger] m.contains_key(ch) ==> m[ch].wf()
}

/// The square chosen by the disc-flipping mover: a row letter A to H and a
/// column digit 1 to 8.
pub open spec fn reversi_target(s: RStats) -> Option<(int, int)> {
    let u = s.mover();
    if u.choiced_alphabet is Some && u.choiced_number is Some {
        let r = char_index(u.choiced_alphabet->Some_0@, 'A', 8);
        let c = char_index(u.choiced_number->Some_0@, '1', 8);
        if r is Some && c is Some {
            Some((r->Some_0, c->Some_0))
        } else {
            None
        }
    } else {
        None
    }
}

/// The square chosen by the five-in-a-row mover: a row letter A to O and a
/// column numeral counted from 1.
pub open spec fn gomoku_target(s: QGStats) -> Option<(int, int)> {
    let u = s.mover();
    if u.choiced_alphabet is Some && u.choiced_number is Some {
        let r = char_index(u.choiced_alphabet->Some_0@, 'A', 15);
        let c = numeral_index(u.choiced_number->Some_0@);
        if r is Some && c is Some {
            Some((r->Some_0, c->Some_0))
        } else {
            None
        }
    } else {
        None
    }
}

/// `s` is a new disc-flipping match of `black` against `white`.
pub open spec fn fresh_reversi(s: RStats, black: u64, white: u64) -> bool {
    &&& s.reversi.turn_stone == Stone::BLACK
    &&& forall|i: int, j: int| in_board(i, j) ==> cell(s.reversi.board, i, j) == initial_cell(i, j)
    &&& s.black_user == Some(RStatsUser { id: black, choiced_alphabet: None, choiced_number: None })
    &&& s.white_user == Some(RStatsUser { id: white, choiced_alphabet: None, choiced_number: None })
}

/// `s` is a new five-in-a-row match of `black` against `white`.
pub open spec fn fresh_gomoku(s: QGStats, black: u64, white: u64) -> bool {
    &&& s.gomoku.current_turn == QStone::Black90
    &&& forall|i: int, j: int| on_board(i, j) ==> stone_at(s.gomoku.board, i, j) == QStone::Empty
    &&& s.black_user == Some(QGStatsUser { id: black, choiced_alphabet: None, choiced_number: None })
    &&& s.white_user == Some(QGStatsUser { id: white, choiced_alphabet: None, choiced_number: None })
}

/// Starts a disc-flipping match in `channel`: `actor` plays black against
/// `opponent`. Refused for a bot or oneself as opponent, and where the
/// channel already has a match.
pub fn start_reversi(
    store: &mut MatchStore<RStats>,
    channel: u64,
    actor: u64,
    opponent: u64,
    opponent_is_bot: bool,
) -> (r: Result<(), MatchError>)
    requires
        reversi_sessions_ok(old(store)@),
    ensures
        reversi_sessions_ok(final(store)@),
        opponent_is_bot || opponent == actor ==> r == Err::<(), MatchError>(
            MatchError::InvalidOpponent,
        ) && final(store)@ == old(store)@,
        !(opponent_is_bot || opponent == actor) && old(store)@.contains_key(channel) ==> r == Err::<
            (),
            MatchError,
        >(MatchError::MatchAlreadyActive) && final(store)@ == old(store)@,
        !(opponent_is_bot || opponent == actor) && !old(store)@.contains_key(channel) ==> {
            &&& r is Ok
            &&& final(store)@ == old(store)@.insert(channel, final(store)@[channel])
            &&& fresh_reversi(final(store)@[channel], actor, opponent)
        },
{
    if opponent_is_bot || opponent == actor {
        return Err(MatchError::InvalidOpponent);
    }
    let mut session = RStats::new();
    session.black_user = Some(RStatsUser::new(actor));
    session.white_user = Some(RStatsUser::new(opponent));
    store.create(channel, session)
}

/// Starts a five-in-a-row match in `channel`: `actor` plays black against
/// `opponent`. Refused for a bot or oneself as opponent, and where the
/// channel already has a match.
pub fn start_gomoku(
    store: &mut MatchStore<QGStats>,
    channel: u64,
    actor: u64,
    opponent: u64,
    opponent_is_bot: bool,
) -> (r: Result<(), MatchError>)
    requires
        gomoku_sessions_ok(old(store)@),
    ensures
        gomoku_sessions_ok(final(store)@),
        opponent_is_bot || opponent == actor ==> r == Err::<(), MatchError>(
            MatchError::InvalidOpponent,
        ) && final(store)@ == old(store)@,
        !(opponent_is_bot || opponent == actor) && old(store)@.contains_key(channel) ==> r == Err::<
            (),
            MatchError,
        >(MatchError::MatchAlreadyActive) && final(store)@ == old(store)@,
        !(opponent_is_bot || opponent == actor) && !old(store)@.contains_key(channel) ==> {
            &&& r is Ok
            &&& final(store)@ == old(store)@.insert(channel, final(store)@[channel])
            &&& fresh_gomoku(final(store)@[channel], actor, opponent)
        },
{
    if opponent_is_bot || opponent == actor {
        return Err(MatchError::InvalidOpponent);
    }
    let mut session = QGStats::new();
    session.black_user = Some(QGStatsUser::new(actor));
    session.white_user = Some(QGStatsUser::new(opponent));
    store.create(channel, session)
}

/// Ends the match of `channel`; refused where there is none.
pub fn end_match<S>(store: &mut MatchStore<S>, channel: u64) -> (r: Result<(), MatchError>)
    ensures
        final(store)@ == old(store)@.remove(channel),
        old(store)@.contains_key(channel) ==> r is Ok,
        !old(store)@.contains_key(channel) ==> r == Err::<(), MatchError>(
            MatchError::NoActiveMatch,
        ),
{
    match store.remove(channel) {
        Some(_) => Ok(()),
        None => Err(MatchError::NoActiveMatch),
    }
}


/// `s` with the mover's row label replaced by `label`.
pub open spec fn reversi_with_row(s: RStats, label: String) -> RStats {
    let u = s.mover();
    let v = RStatsUser { id: u.id, choiced_alphabet: Some(label), choiced_number: u.choiced_number };
    if s.reversi.turn_stone == Stone::BLACK {
        RStats { reversi: s.reversi, black_user: Some(v), white_user: s.white_user }
    } else {
        RStats { reversi: s.reversi, black_user: s.black_user, white_user: Some(v) }
    }
}

/// `s` with the mover's column label replaced by `label`.
pub open spec fn reversi_with_column(s: RStats, label: String) -> RStats {
    let u = s.mover();
    let v = RStatsUser { id: u.id, choiced_alphabet: u.choiced_alphabet, choiced_number: Some(label) };
    if s.reversi.turn_stone == Stone::BLACK {
        RStats { reversi: s.reversi, black_user: Some(v), white_user: s.white_user }
    } else {
        RStats { reversi: s.reversi, black_user: s.black_user, white_user: Some(v) }
    }
}

/// `s` with the mover's row label replaced by `label`.
pub open spec fn gomoku_with_row(s: QGStats, label: String) -> QGStats {
    let u = s.mover();
    let v = QGStatsUser { id: u.id, choiced_alphabet: Some(label), choiced_number: u.choiced_number };
    if s.gomoku.current_turn == QStone::Black90 || s.gomoku.current_turn == QStone::Black70 {
        QGStats { gomoku: s.gomoku, black_user: Some(v), white_user: s.white_user }
    } else {
        QGStats { gomoku: s.gomoku, black_user: s.black_user, white_user: Some(v) }
    }
}

/// `s` with the mover's column label replaced by `label`.
pub open spec fn gomoku_with_column(s: QGStats, label: String) -> QGStats {
    let u = s.mover();
    let v = QGStatsUser { id: u.id, choiced_alphabet: u.choiced_alphabet, choiced_number: Some(label) };
    if s.gomoku.current_turn == QStone::Black90 || s.gomoku.current_turn == QStone::Black70 {
        QGStats { gomoku: s.gomoku, black_user: Some(v), white_user: s.white_user }
    } else {
        QGStats { gomoku: s.gomoku, black_user: s.black_user, white_user: Some(v) }
    }
}

fn reversi_mover_is(s: &RStats, actor: u64) -> (r: bool)
    requires
        s.wf(),
    ensures
        r == (s.mover().id == actor),
{
    let user = if s.reversi.turn_stone == Stone::BLACK {
        &s.black_user
    } else {
        &s.white_user
    };
    match user {
        Some(u) => u.id == actor,
        None => false,
    }
}

fn gomoku_mover_is(s: &QGStats, actor: u64) -> (r: bool)
    requires
        s.wf(),
    ensures
        r == (s.mover().id == actor),
{
    let user = if s.gomoku.current_turn == QStone::Black90 || s.gomoku.current_turn
        == QStone::Black70 {
        &s.black_user
    } else {
        &s.white_user
    };
    match user {
        Some(u) => u.id == actor,
        None => false,
    }
}

/// Records `label` as the row chosen by the player to move in `channel`.
pub fn select_row_reversi(store: &mut MatchStore<RStats>, channel: u64, actor: u64, label: String) -> (r:
    Result<(), MatchError>)
    requires
        reversi_sessions_ok(old(store)@),
    ensures
        reversi_sessions_ok(final(store)@),
        !old(store)@.contains_key(channel) ==> r == Err::<(), MatchError>(MatchError::NoActiveMatch)
            && final(store)@ == old(store)@,
        old(store)@.contains_key(channel) && old(store)@[channel].mover().id != actor ==> r == Err::<
            (),
            MatchError,
        >(MatchError::NotYourTurn) && final(store)@ == old(store)@,
        old(store)@.contains_key(channel) && old(store)@[channel].mover().id == actor ==> r is Ok
            && final(store)@ == old(store)@.insert(
            channel,
            reversi_with_row(old(store)@[channel], label),
        ),
{
    match store.get(channel) {
        None => {
            return Err(MatchError::NoActiveMatch);
        },
        Some(s) => {
            if !reversi_mover_is(s, actor) {
                return Err(MatchError::NotYourTurn);
            }
        },
    }
    let session = match store.remove(channel) {
        Some(s) => s,
        None => {
            return Err(MatchError::NoActiveMatch);
        },
    };
    let RStats { reversi, black_user, white_user } = session;
    let updated = if reversi.turn_stone == Stone::BLACK {
        let black_user = match black_user {
            Some(u) => Some(
                RStatsUser { id: u.id, choiced_alphabet: Some(label), choiced_number: u.choiced_number },
            ),
            None => None,
        };
        RStats { reversi, black_user, white_user }
    } else {
        let white_user = match white_user {
            Some(u) => Some(
                RStatsUser { id: u.id, choiced_alphabet: Some(label), choiced_number: u.choiced_number },
            ),
            None => None,
        };
        RStats { reversi, black_user, white_user }
    };
    store.put(channel, updated);
    assert(final(store)@ =~= old(store)@.insert(channel, reversi_with_row(old(store)@[channel], label)));
    Ok(())
}

/// Records `label` as the column chosen by the player to move in `channel`.
pub fn select_column_reversi(store: &mut MatchStore<RStats>, channel: u64, actor: u64, label: String) -> (r:
    Result<(), MatchError>)
    requires
        reversi_sessions_ok(old(store)@),
    ensures
        reversi_sessions_ok(final(store)@),
        !old(store)@.contains_key(channel) ==> r == Err::<(), MatchError>(MatchError::NoActiveMatch)
            && final(store)@ == old(store)@,
        old(store)@.contains_key(channel) && old(store)@[channel].mover().id != actor ==> r == Err::<
            (),
            MatchError,
        >(MatchError::NotYourTurn) && final(store)@ == old(store)@,
        old(store)@.contains_key(channel) && old(store)@[channel].mover().id == actor ==> r is Ok
            && final(store)@ == old(store)@.insert(
            channel,
            reversi_with_column(old(store)@[channel], label),
        ),
{
    match store.get(channel) {
        None => {
            return Err(MatchError::NoActiveMatch);
        },
        Some(s) => {
            if !reversi_mover_is(s, actor) {
                return Err(MatchError::NotYourTurn);
            }
        },
    }
    let session = match store.remove(channel) {
        Some(s) => s,
        None => {
            return Err(MatchError::NoActiveMatch);
        },
    };
    let RStats { reversi, black_user, white_user } = session;
    let updated = if reversi.turn_stone == Stone::BLACK {
        let black_user = match black_user {
            Some(u) => Some(
                RStatsUser { id: u.id, choiced_alphabet: u.choiced_alphabet, choiced_number: Some(label) },
            ),
            None => None,
        };
        RStats { reversi, black_user, white_user }
    } else {
        let white_user = match white_user {
            Some(u) => Some(
                RStatsUser { id: u.id, choiced_alphabet: u.choiced_alphabet, choiced_number: Some(label) },
            ),
            None => None,
        };
        RStats { reversi, black_user, white_user }
    };
    store.put(channel, updated);
    assert(final(store)@ =~= old(store)@.insert(channel, reversi_with_column(old(store)@[channel], label)));
    Ok(())
}

/// Records `label` as the row chosen by the player to move in `channel`.
pub fn select_row_gomoku(store: &mut MatchStore<QGStats>, channel: u64, actor: u64, label: String) -> (r:
    Result<(), MatchError>)
    requires
        gomoku_sessions_ok(old(store)@),
    ensures
        gomoku_sessions_ok(final(store)@),
        !old(store)@.contains_key(channel) ==> r == Err::<(), MatchError>(MatchError::NoActiveMatch)
            && final(store)@ == old(store)@,
        old(store)@.contains_key(channel) && old(store)@[channel].mover().id != actor ==> r == Err::<
            (),
            MatchError,
        >(MatchError::NotYourTurn) && final(store)@ == old(store)@,
        old(store)@.contains_key(channel) && old(store)@[channel].mover().id == actor ==> r is Ok
            && final(store)@ == old(store)@.insert(
            channel,
            gomoku_with_row(old(store)@[channel], label),
        ),
{
    match store.get(channel) {
        None => {
            return Err(MatchError::NoActiveMatch);
        },
        Some(s) => {
            if !gomoku_mover_is(s, actor) {
                return Err(MatchError::NotYourTurn);
            }
        },
    }
    let session = match store.remove(channel) {
        Some(s) => s,
        None => {
            return Err(MatchError::NoActiveMatch);
        },
    };
    let QGStats { gomoku, black_user, white_user } = session;
    let updated = if gomoku.current_turn == QStone::Black90 || gomoku.current_turn == QStone::Black70 {
        let black_user = match black_user {
            Some(u) => Some(
                QGStatsUser { id: u.id, choiced_alphabet: Some(label), choiced_number: u.choiced_number },
            ),
            None => None,
        };
        QGStats { gomoku, black_user, white_user }
    } else {
        let white_user = match white_user {
            Some(u) => Some(
                QGStatsUser { id: u.id, choiced_alphabet: Some(label), choiced_number: u.choiced_number },
            ),
            None => None,
        };
        QGStats { gomoku, black_user, white_user }
    };
    store.put(channel, updated);
    assert(final(store)@ =~= old(store)@.insert(channel, gomoku_with_row(old(store)@[channel], label)));
    Ok(())
}

/// Records `label` as the column chosen by the player to move in `channel`.
pub fn select_column_gomoku(store: &mut MatchStore<QGStats>, channel: u64, actor: u64, label: String) -> (r:
    Result<(), MatchError>)
    requires
        gomoku_sessions_ok(old(store)@),
    ensures
        gomoku_sessions_ok(final(store)@),
        !old(store)@.contains_key(channel) ==> r == Err::<(), MatchError>(MatchError::NoActiveMatch)
            && final(store)@ == old(store)@,
        old(store)@.contains_key(channel) && old(store)@[channel].mover().id != actor ==> r == Err::<
            (),
            MatchError,
        >(MatchError::NotYourTurn) && final(store)@ == old(store)@,
        old(store)@.contains_key(channel) && old(store)@[channel].mover().id == actor ==> r is Ok
            && final(store)@ == old(store)@.insert(
            channel,
            gomoku_with_column(old(store)@[channel], label),
        ),
{
    match store.get(channel) {
        None => {
            return Err(MatchError::NoActiveMatch);
        },
        Some(s) => {
            if !gomoku_mover_is(s, actor) {
                return Err(MatchError::NotYourTurn);
            }
        },
    }
    let session = match store.remove(channel) {
        Some(s) => s,
        None => {
            return Err(MatchError::NoActiveMatch);
        },
    };
    let QGStats { gomoku, black_user, white_user } = session;
    let updated = if gomoku.current_turn == QStone::Black90 || gomoku.current_turn == QStone::Black70 {
        let black_user = match black_user {
            Some(u) => Some(
                QGStatsUser { id: u.id, choiced_alphabet: u.choiced_alphabet, choiced_number: Some(label) },
            ),
            None => None,
        };
        QGStats { gomoku, black_user, white_user }
    } else {
        let white_user = match white_user {
            Some(u) => Some(
                QGStatsUser { id: u.id, choiced_alphabet: u.choiced_alphabet, choiced_number: Some(label) },
            ),
            None => None,
        };
        QGStats { gomoku, black_user, white_user }
    };
    store.put(channel, updated);
    assert(final(store)@ =~= old(store)@.insert(channel, gomoku_with_column(old(store)@[channel], label)));
    Ok(())
}


fn reversi_choice(s: &RStats) -> (r: Option<(usize, usize)>)
    requires
        s.wf(),
    ensures
        r is Some <==> reversi_target(*s) is Some,
        r matches Some(p) ==> reversi_target(*s) == Some((p.0 as int, p.1 as int)),
        r matches Some(p) ==> p.0 < 8 && p.1 < 8,
{
    let user = if s.reversi.turn_stone == Stone::BLACK {
        &s.black_user
    } else {
        &s.white_user
    };
    match user {
        Some(u) => match (&u.choiced_alphabet, &u.choiced_number) {
            (Some(a), Some(n)) => match (label_index(a, 'A', 8), label_index(n, '1', 8)) {
                (Some(row), Some(column)) => Some((row, column)),
                _ => None,
            },
            _ => None,
        },
        None => None,
    }
}

fn gomoku_choice(s: &QGStats) -> (r: Option<(usize, usize)>)
    requires
        s.wf(),
    ensures
        r is Some <==> gomoku_target(*s) is Some,
        r matches Some(p) ==> gomoku_target(*s) == Some((p.0 as int, p.1 as int)),
{
    let user = if s.gomoku.current_turn == QStone::Black90 || s.gomoku.current_turn
        == QStone::Black70 {
        &s.black_user
    } else {
        &s.white_user
    };
    match user {
        Some(u) => match (&u.choiced_alphabet, &u.choiced_number) {
            (Some(a), Some(n)) => match (label_index(a, 'A', 15), numeral_label_index(n)) {
                (Some(row), Some(column)) => Some((row, column)),
                _ => None,
            },
            _ => None,
        },
        None => None,
    }
}

/// What a successful disc-flipping move led to.
#[derive(Debug)]
pub enum ReversiOutcome {
    /// The stone was put and the match goes on; `passed` when the opponent
    /// had no legal square, so that the same player moves again.
    Moved { passed: bool },
    /// The stone ended the game, and the match was removed: the final
    /// position, the number of stones of each colour, and the colour with
    /// more stones (`NONE` for a draw).
    Finished { game: Reversi, black: u32, white: u32, winner: Stone },
}

/// `after` is the match `before` once its mover has put a stone at `(r, c)`,
/// the game has gone on, and the turn has moved to the opponent, or stayed
/// where the opponent has no legal square (`passed`).
pub open spec fn reversi_moved(before: RStats, after: RStats, r: int, c: int, passed: bool) -> bool {
    let color = before.reversi.turn_stone;
    &&& placed_from(before.reversi.board, after.reversi.board, r, c, color)
    &&& !game_over(after.reversi.board)
    &&& passed == !can_move(after.reversi.board, rival(color))
    &&& after.reversi.turn_stone == (if passed {
        color
    } else {
        rival(color)
    })
    &&& after.black_user == before.black_user
    &&& after.white_user == before.white_user
}

/// The outcome `r` of a legal move at `(i, j)` by the mover of `before`, the
/// match of `channel`, with `m0` and `m1` the store before and after.
pub open spec fn reversi_committed(
    before: RStats,
    i: int,
    j: int,
    channel: u64,
    m0: Map<u64, RStats>,
    m1: Map<u64, RStats>,
    r: Result<ReversiOutcome, MatchError>,
) -> bool {
    match r {
        Ok(ReversiOutcome::Finished { game, black, white, winner }) => {
            &&& placed_from(before.reversi.board, game.board, i, j, before.reversi.turn_stone)
            &&& game.turn_stone == before.reversi.turn_stone
            &&& game_over(game.board)
            &&& black == stone_count(game.board, Stone::BLACK)
            &&& white == stone_count(game.board, Stone::WHITE)
            &&& winner == leader(black as int, white as int)
            &&& m1 == m0.remove(channel)
        },
        Ok(ReversiOutcome::Moved { passed }) => {
            &&& m1 == m0.insert(channel, m1[channel])
            &&& reversi_moved(before, m1[channel], i, j, passed)
        },
        Err(_) => false,
    }
}

/// Puts the stone of the player to move in `channel` on the square they
/// chose, then passes the turn on, or ends and removes the match when
/// neither colour can move any more. Refused, with nothing changed, where
/// the channel has no match, the actor is not the player to move, the row
/// or column is missing, or the square is not legal. The chosen row and
/// column are kept after the move, on success as on refusal: a later commit
/// without a new choice replays them. This is a deliberate choice of the
/// protocol, not an oversight; clearing them would be a change of behaviour.
pub fn commit_reversi(store: &mut MatchStore<RStats>, channel: u64, actor: u64) -> (r: Result<
    ReversiOutcome,
    MatchError,
>)
    requires
        reversi_sessions_ok(old(store)@),
    ensures
        reversi_sessions_ok(final(store)@),
        !old(store)@.contains_key(channel) ==> r == Err::<ReversiOutcome, MatchError>(
            MatchError::NoActiveMatch,
        ) && final(store)@ == old(store)@,
        old(store)@.contains_key(channel) && old(store)@[channel].mover().id != actor ==> r == Err::<
            ReversiOutcome,
            MatchError,
        >(MatchError::NotYourTurn) && final(store)@ == old(store)@,
        old(store)@.contains_key(channel) && old(store)@[channel].mover().id == actor
            && reversi_target(old(store)@[channel]) is None ==> r == Err::<
            ReversiOutcome,
            MatchError,
        >(MatchError::IncompleteSelection) && final(store)@ == old(store)@,
        old(store)@.contains_key(channel) && old(store)@[channel].mover().id == actor
            ==> (reversi_target(old(store)@[channel]) matches Some(t) ==> {
            let s = old(store)@[channel];
            if legal(s.reversi.board, t.0, t.1, s.reversi.turn_stone) {
                reversi_committed(s, t.0, t.1, channel, old(store)@, final(store)@, r)
            } else {
                r == Err::<ReversiOutcome, MatchError>(MatchError::IllegalPlacement) && final(store)@ == old(store)@
            }
        }),
{
    let (color, row, column) = match store.get(channel) {
        None => {
            return Err(MatchError::NoActiveMatch);
        },
        Some(s) => {
            if !reversi_mover_is(s, actor) {
                return Err(MatchError::NotYourTurn);
            }
            let (row, column) = match reversi_choice(s) {
                Some(p) => p,
                None => {
                    return Err(MatchError::IncompleteSelection);
                },
            };
            if !s.reversi.can_place_square(row as i32, column as i32, s.reversi.turn_stone) {
                return Err(MatchError::IllegalPlacement);
            }
            (s.reversi.turn_stone, row, column)
        },
    };
    let ghost before = old(store)@[channel];
    let mut session = match store.remove(channel) {
        Some(s) => s,
        None => {
            return Err(MatchError::NoActiveMatch);
        },
    };
    let _ = session.reversi.do_place(row as i32, column as i32, color);
    if session.reversi.is_game_end() {
        let black = session.reversi.count_stone(Stone::BLACK);
        let white = session.reversi.count_stone(Stone::WHITE);
        let winner = winner_of(black, white);
        return Ok(ReversiOutcome::Finished { game: session.reversi, black, white, winner });
    }
    session.reversi.switch_turn();
    let passed = !session.reversi.player_can_place(session.reversi.turn_stone);
    if passed {
        session.reversi.switch_turn();
    }
    let ghost after = session;
    store.put(channel, session);
    assert(final(store)@ =~= old(store)@.insert(channel, after));
    assert(reversi_moved(before, after, row as int, column as int, passed));
    Ok(ReversiOutcome::Moved { passed })
}

/// Checks a move of the player to move in `channel` and gives the square
/// they chose, as in `commit_gomoku`.
fn check_gomoku_move(store: &MatchStore<QGStats>, channel: u64, actor: u64) -> (r: Result<(usize, usize), MatchError>)
    requires
        gomoku_sessions_ok(store@),
    ensures
        !store@.contains_key(channel) ==> r == Err::<(usize, usize), MatchError>(MatchError::NoActiveMatch),
        store@.contains_key(channel) && store@[channel].mover().id != actor ==> r == Err::<
            (usize, usize),
            MatchError,
        >(MatchError::NotYourTurn),
        store@.contains_key(channel) && store@[channel].mover().id == actor && gomoku_target(
            store@[channel],
        ) is None ==> r == Err::<(usize, usize), MatchError>(MatchError::IncompleteSelection),
        store@.contains_key(channel) && store@[channel].mover().id == actor ==> (gomoku_target(
            store@[channel],
        ) matches Some(t) ==> {
            let s = store@[channel];
            if on_board(t.0, t.1) && stone_at(s.gomoku.board, t.0, t.1) == QStone::Empty {
                r matches Ok(p) && p.0 == t.0 && p.1 == t.1
            } else {
                r == Err::<(usize, usize), MatchError>(MatchError::IllegalPlacement)
            }
        }),
{
    match store.get(channel) {
        None => Err(MatchError::NoActiveMatch),
        Some(s) => {
            if !gomoku_mover_is(s, actor) {
                return Err(MatchError::NotYourTurn);
            }
            let (row, column) = match gomoku_choice(s) {
                Some(p) => p,
                None => {
                    return Err(MatchError::IncompleteSelection);
                },
            };
            if !(row <= 18 && column <= 18) || s.gomoku.board[row][column] != QStone::Empty {
                return Err(MatchError::IllegalPlacement);
            }
            Ok((row, column))
        },
    }
}

/// `after` is the match `before` once its mover has put a stone at `(r, c)`
/// and the turn has moved on.
pub open spec fn gomoku_moved(before: QGStats, after: QGStats, r: int, c: int) -> bool {
    &&& forall|i: int, j: int|
        on_board(i, j) ==> #[trigger] stone_at(after.gomoku.board, i, j) == (if i == r && j == c {
            before.gomoku.current_turn
        } else {
            stone_at(before.gomoku.board, i, j)
        })
    &&& after.gomoku.current_turn == next_turn(before.gomoku.current_turn)
    &&& after.black_user == before.black_user
    &&& after.white_user == before.white_user
}

/// Puts a stone of the current kind for the player to move in `channel` on
/// the square they chose, then moves the turn on. Refused, with nothing
/// changed, where the channel has no match, the actor is not the player to
/// move, the row or column is missing, or the square is off the board or
/// taken. As with `commit_reversi`, the chosen row and column are kept
/// after the move, on success as on refusal, and not cleared.
pub fn commit_gomoku(store: &mut MatchStore<QGStats>, channel: u64, actor: u64) -> (r: Result<(), MatchError>)
    requires
        gomoku_sessions_ok(old(store)@),
    ensures
        gomoku_sessions_ok(final(store)@),
        !old(store)@.contains_key(channel) ==> r == Err::<(), MatchError>(MatchError::NoActiveMatch)
            && final(store)@ == old(store)@,
        old(store)@.contains_key(channel) && old(store)@[channel].mover().id != actor ==> r == Err::<
            (),
            MatchError,
        >(MatchError::NotYourTurn) && final(store)@ == old(store)@,
        old(store)@.contains_key(channel) && old(store)@[channel].mover().id == actor && gomoku_target(
            old(store)@[channel],
        ) is None ==> r == Err::<(), MatchError>(MatchError::IncompleteSelection) && final(store)@
            == old(store)@,
        old(store)@.contains_key(channel) && old(store)@[channel].mover().id == actor ==> (gomoku_target(
            old(store)@[channel],
        ) matches Some(t) ==> {
            let s = old(store)@[channel];
            if on_board(t.0, t.1) && stone_at(s.gomoku.board, t.0, t.1) == QStone::Empty {
                &&& r is Ok
                &&& final(store)@ == old(store)@.insert(channel, final(store)@[channel])
                &&& gomoku_moved(s, final(store)@[channel], t.0, t.1)
            } else {
                r == Err::<(), MatchError>(MatchError::IllegalPlacement) && final(store)@ == old(store)@
            }
        }),
{
    let (row, column) = match check_gomoku_move(store, channel, actor) {
        Ok(p) => p,
        Err(e) => {
            return Err(e);
        },
    };
    let mut session = match store.remove(channel) {
        Some(s) => s,
        None => {
            return Err(MatchError::NoActiveMatch);
        },
    };
    let _ = session.gomoku.do_place(row, column);
    session.gomoku.switch_turn();
    let ghost after = session;
    store.put(channel, session);
    assert(final(store)@[channel] == after);
    Ok(())
}

/// The observed board of a move and its winner, `Empty` for none.
#[derive(Debug)]
pub struct Observation {
    pub winner: ObservedStone,
    pub observed: [[ObservedStone; 19]; 19],
}

/// The observation `o` after a move at `(r, c)` by the mover of `before`, the
/// match of `channel`, with `m0` and `m1` the store before and after: its
/// winner is that of its board, each square is empty exactly where the board
/// after the move is, and the match is removed when there is a winner and
/// has moved on otherwise.
pub open spec fn gomoku_observed(
    before: QGStats,
    r: int,
    c: int,
    channel: u64,
    m0: Map<u64, QGStats>,
    m1: Map<u64, QGStats>,
    o: Observation,
) -> bool {
    &&& o.winner == winner(o.observed, before.gomoku.current_turn)
    &&& forall|i: int, j: int|
        on_board(i, j) ==> ((#[trigger] observed_at(o.observed, i, j) == ObservedStone::Empty) == (
        !(i == r && j == c) && stone_at(before.gomoku.board, i, j) == QStone::Empty))
    &&& o.winner != ObservedStone::Empty ==> m1 == m0.remove(channel)
    &&& o.winner == ObservedStone::Empty ==> m1 == m0.insert(channel, m1[channel]) && gomoku_moved(
        before,
        m1[channel],
        r,
        c,
    )
}

/// Puts a stone as `commit_gomoku` does, then observes the whole board.
/// When the observed board has a winner, the side to move winning a tie,
/// the match is removed; otherwise the turn moves on. Refused as
/// `commit_gomoku` is, and like it keeps the chosen row and column.
pub fn commit_and_observe_gomoku(store: &mut MatchStore<QGStats>, channel: u64, actor: u64) -> (r:
    Result<Observation, MatchError>)
    requires
        gomoku_sessions_ok(old(store)@),
    ensures
        gomoku_sessions_ok(final(store)@),
        !old(store)@.contains_key(channel) ==> r == Err::<Observation, MatchError>(
            MatchError::NoActiveMatch,
        ) && final(store)@ == old(store)@,
        old(store)@.contains_key(channel) && old(store)@[channel].mover().id != actor ==> r == Err::<
            Observation,
            MatchError,
        >(MatchError::NotYourTurn) && final(store)@ == old(store)@,
        old(store)@.contains_key(channel) && old(store)@[channel].mover().id == actor && gomoku_target(
            old(store)@[channel],
        ) is None ==> r == Err::<Observation, MatchError>(MatchError::IncompleteSelection) && final(store)@ == old(store)@,
        old(store)@.contains_key(channel) && old(store)@[channel].mover().id == actor ==> (gomoku_target(
            old(store)@[channel],
        ) matches Some(t) ==> {
            let s = old(store)@[channel];
            if on_board(t.0, t.1) && stone_at(s.gomoku.board, t.0, t.1) == QStone::Empty {
                r matches Ok(o) && gomoku_observed(s, t.0, t.1, channel, old(store)@, final(store)@, o)
            } else {
                r == Err::<Observation, MatchError>(MatchError::IllegalPlacement) && final(store)@
                    == old(store)@
            }
        }),
{
    let (row, column) = match check_gomoku_move(store, channel, actor) {
        Ok(p) => p,
        Err(e) => {
            return Err(e);
        },
    };
    let mut session = match store.remove(channel) {
        Some(s) => s,
        None => {
            return Err(MatchError::NoActiveMatch);
        },
    };
    let _ = session.gomoku.do_place(row, column);
    let (winner, observed) = session.gomoku.judge_winner();
    if winner != ObservedStone::Empty {
        return Ok(Observation { winner, observed });
    }
    session.gomoku.switch_turn();
    let ghost after = session;
    store.put(channel, session);
    assert(final(store)@ =~= old(store)@.insert(channel, after));
    Ok(Observation { winner, observed })
}

} // verus!
