//! Payloads of the messages exchanged between clients and the server.

use vstd::prelude::*;
use crate::game::{Galaxy, GameConfig};

verus! {

/// A client chooses its display name.
#[derive(Clone, Debug)]
pub struct SetName {
    pub name: String,
}

/// A client enters a running or waiting game.
#[derive(Clone, Debug)]
pub struct EnterGame {
    pub game_id: String,
}

/// The state of a game's galaxy.
#[derive(Clone, Debug)]
pub struct GameState {
    pub galaxy: Galaxy,
}

/// A client asks to send ships from planet `from` to planet `to`.
#[derive(Clone, Copy, Debug, PartialEq, Eq, Structural)]
pub struct GameMove {
    pub to: u16,
    pub from: u16,
}

/// A move together with the tick at which it is issued.
#[derive(Clone, Copy, Debug, PartialEq, Eq, Structural)]
pub struct TimedGameMove {
    pub time: u64,
    pub game_move: GameMove,
}

/// A client asks for a new game on a map.
#[derive(Clone, Debug)]
pub struct CreateGame {
    pub map_id: String,
    pub config: GameConfig,
}

/// What the game list shows of a game.
#[derive(Clone, Debug)]
pub struct GameMetadata {
    pub game_id: String,
    pub config: GameConfig,
    pub map_id: String,
}

#[derive(Clone, Debug)]
pub struct GameList {
    pub games: Vec<GameMetadata>,
}

/// The players of a game.
#[derive(Clone, Debug)]
pub struct GamePlayers {
    pub game_id: String,
    pub players: Vec<PlayerMetadata>,
}

#[derive(Clone, Debug)]
pub struct PlayerMetadata {
    pub name: String,
}

} // verus!
