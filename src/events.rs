use vstd::prelude::*;

use crate::board::{Player, Token};
use crate::position::Column;

verus! {

/// Identifies a game.
pub type GameId = usize;

/// A point in time, in milliseconds since the Unix epoch, UTC.
#[derive(Clone, Copy, Debug, PartialEq, Eq, Structural)]
pub struct Timestamp {
    pub millis: i64,
}

impl Timestamp {
    /// Relies on chrono's `Utc::now` and `DateTime::timestamp_millis`: the
    /// current UTC time as milliseconds since the Unix epoch. Nothing is
    /// promised of the value, which depends on the clock.
    #[verifier::external_body]
    pub(crate) fn now() -> (r: Timestamp) {
        Timestamp { millis: chrono::Utc::now().timestamp_millis() }
    }
}

/// A game was created with these two players.
#[derive(Clone, Debug)]
pub struct GameCreated {
    pub id: GameId,
    pub player1: Player,
    pub player2: Player,
    pub created: Timestamp,
}

/// A token was dropped into a column of a game.
#[derive(Clone, Debug)]
pub struct TokenPlaced {
    pub game: GameId,
    pub token: Token,
    pub column: Column,
    pub created: Timestamp,
}

/// The facts that make up a game's history.
#[derive(Clone, Debug)]
pub enum GameEvents {
    GameCreated(GameCreated),
    TokenPlaced(TokenPlaced),
}

/// Proposal to start a game between two players.
#[derive(Clone, Debug)]
pub struct CreateGame {
    pub player1: Player,
    pub player2: Player,
}

/// Proposal by a player to drop a token into a column of a game.
#[derive(Clone, Debug)]
pub struct PlaceToken {
    pub game: GameId,
    pub player: Player,
    pub column: Column,
}

/// The intents a caller may submit.
#[derive(Clone, Debug)]
pub enum GameCommands {
    CreateGame(CreateGame),
    PlaceToken(PlaceToken),
}

} // verus!
