//! The messages that the server and its clients exchange.

use vstd::prelude::*;

use super::direction::Direction;
use super::player_states::{LobbyState, PlayerStates};

verus! {

/// Everything that travels between the server and a client.
pub enum NetworkMessage {
    /// Server to client: who the receiver is and how many are connected.
    ConnectionInfo(ConnectionInfoMessage),
    /// Server to client: the snapshot of one tick.
    GameState(GameStateMessage),
    /// Client to server: please start the round.
    RequestStart,
    /// Client to server: the sender's new steering intent.
    PlayerUpdate(PlayerUpdateMessage),
}

/// Told to every client whenever somebody joins or leaves.
pub struct ConnectionInfoMessage {
    /// The identifier of the client that receives the message.
    pub player_id: String,
    pub players_connected: u32,
}

/// The lobby phase and every player, as they stand after one tick.
pub struct GameStateMessage {
    pub lobby_state: LobbyState,
    pub player_states: Vec<PlayerStates>,
}

/// The steering intent that a client asks for.
pub struct PlayerUpdateMessage {
    pub current_direction: Direction,
}

} // verus!
