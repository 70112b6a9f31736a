//! Match records of one channel and the store that maps each channel to its
//! running match.
use vstd::prelude::*;
use std::collections::HashMap;
use crate::gomoku::{QuantumGomoku, Stone as QStone, on_board, stone_at};
use crate::reversi::{Reversi, Stone, cell, in_board, initial_cell};

verus! {

/// Why an action on a match was refused.
#[derive(Clone, Copy, Debug, PartialEq, Eq, Structural)]
pub enum MatchError {
    /// The channel has no running match.
    NoActiveMatch,
    /// The channel already has a running match.
    MatchAlreadyActive,
    /// The named opponent is a bot or the player who asked.
    InvalidOpponent,
    /// The actor is not the player to move.
    NotYourTurn,
    /// The row or the column has not been chosen.
    IncompleteSelection,
    /// The chosen square cannot take a stone.
    IllegalPlacement,
}

/// A participant of a disc-flipping match with the row and column labels
/// last chosen.
#[derive(Debug)]
pub struct RStatsUser {
    pub id: u64,
    pub choiced_alphabet: Option<String>,
    pub choiced_number: Option<String>,
}

impl RStatsUser {
    /// A participant with nothing chosen yet.
    pub fn new(user_id: u64) -> (r: Self)
        ensures
            r.id == user_id,
            r.choiced_alphabet is None,
            r.choiced_number is None,
    {
        RStatsUser { id: user_id, choiced_alphabet: None, choiced_number: None }
    }
}

/// One disc-flipping match: the board and its two participants.
#[derive(Debug)]
pub struct RStats {
    pub reversi: Reversi,
    pub black_user: Option<RStatsUser>,
    pub white_user: Option<RStatsUser>,
}

impl RStats {
    /// The opening position, no participants bound yet.
    pub fn new() -> (r: Self)
        ensures
            r.reversi.turn_stone == Stone::BLACK,
            forall|i: int, j: int| in_board(i, j) ==> cell(r.reversi.board, i, j) == initial_cell(i, j),
            r.black_user is None,
            r.white_user is None,
    {
        RStats { reversi: Reversi::new(), black_user: None, white_user: None }
    }

    /// Both participants are bound and a colour is to move.
    pub open spec fn wf(&self) -> bool {
        &&& self.black_user is Some
        &&& self.white_user is Some
        &&& self.reversi.turn_stone != Stone::NONE
    }

    /// The participant bound to the colour to move.
    pub open spec fn mover(&self) -> RStatsUser {
        if self.reversi.turn_stone == Stone::BLACK {
            self.black_user->Some_0
        } else {
            self.white_user->Some_0
        }
    }
}

/// A participant of a quantum five-in-a-row match with the row and column
/// labels last chosen.
#[derive(Debug)]
pub struct QGStatsUser {
    pub id: u64,
    pub choiced_alphabet: Option<String>,
    pub choiced_number: Option<String>,
}

impl QGStatsUser {
    /// A participant with nothing chosen yet.
    pub fn new(user_id: u64) -> (r: Self)
        ensures
            r.id == user_id,
            r.choiced_alphabet is None,
            r.choiced_number is None,
    {
        QGStatsUser { id: user_id, choiced_alphabet: None, choiced_number: None }
    }
}

/// One quantum five-in-a-row match: the board and its two participants.
#[derive(Debug)]
pub struct QGStats {
    pub gomoku: QuantumGomoku,
    pub black_user: Option<QGStatsUser>,
    pub white_user: Option<QGStatsUser>,
}

impl QGStats {
    /// An empty board, no participants bound yet.
    pub fn new() -> (r: Self)
        ensures
            r.gomoku.current_turn == QStone::Black90,
            forall|i: int, j: int| on_board(i, j) ==> stone_at(r.gomoku.board, i, j) == QStone::Empty,
            r.black_user is None,
            r.white_user is None,
    {
        QGStats { gomoku: QuantumGomoku::new(), black_user: None, white_user: None }
    }

    /// Both participants are bound and a side is to move.
    pub open spec fn wf(&self) -> bool {
        &&& self.black_user is Some
        &&& self.white_user is Some
        &&& self.gomoku.current_turn != QStone::Empty
    }

    /// The participant bound to the side to move.
    pub open spec fn mover(&self) -> QGStatsUser {
        if self.gomoku.current_turn == QStone::Black90 || self.gomoku.current_turn == QStone::Black70 {
            self.black_user->Some_0
        } else {
            self.white_user->Some_0
        }
    }
}

/// The running matches, at most one per channel.
pub struct MatchStore<S> {
    sessions: HashMap<u64, S>,
}

impl<S> View for MatchStore<S> {
    type V = Map<u64, S>;

    closed spec fn view(&self) -> Map<u64, S> {
        self.sessions@
    }
}

impl<S> MatchStore<S> {
    /// A store with no match.
    pub fn new() -> (r: Self)
        ensures
            r@ == Map::<u64, S>::empty(),
    {
        MatchStore { sessions: HashMap::new() }
    }

    /// Whether `channel` has a running match.
    pub fn contains(&self, channel: u64) -> (r: bool)
        ensures
            r == self@.contains_key(channel),
    {
        self.sessions.contains_key(&channel)
    }

    /// The match of `channel`, if any.
    pub fn get(&self, channel: u64) -> (r: Option<&S>)
        ensures
            self@.contains_key(channel) ==> r == Some(&self@[channel]),
            !self@.contains_key(channel) ==> r is None,
    {
        self.sessions.get(&channel)
    }

    /// Registers `session` as the match of `channel`; refused when the
    /// channel already has one, which then stays as it was.
    pub fn create(&mut self, channel: u64, session: S) -> (r: Result<(), MatchError>)
        ensures
            old(self)@.contains_key(channel) ==> r == Err::<(), MatchError>(
                MatchError::MatchAlreadyActive,
            ) && final(self)@ == old(self)@,
            !old(self)@.contains_key(channel) ==> r is Ok && final(self)@ == old(self)@.insert(
                channel,
                session,
            ),
    {
        if self.sessions.contains_key(&channel) {
            return Err(MatchError::MatchAlreadyActive);
        }
        self.sessions.insert(channel, session);
        Ok(())
    }

    /// Ends the match of `channel`, handing it back.
    pub fn remove(&mut self, channel: u64) -> (r: Option<S>)
        ensures
            final(self)@ == old(self)@.remove(channel),
            old(self)@.contains_key(channel) ==> r == Some(old(self)@[channel]),
            !old(self)@.contains_key(channel) ==> r is None,
    {
        self.sessions.remove(&channel)
    }

    /// Stores `session` as the match of `channel`, in place of any other.
    pub fn put(&mut self, channel: u64, session: S)
        ensures
            final(self)@ == old(self)@.insert(channel, session),
    {
        self.sessions.insert(channel, session);
    }
}

} // verus!
