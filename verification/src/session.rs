//! The decisions of a connection's session: what an inbound frame does to
//! the store, and how a requested round is counted down.
//!
//! The store decides; whoever owns the connection waits, receives and sends.

use vstd::prelude::*;

use crate::game_state::{GameModel, GameState};
use crate::models::network_message::NetworkMessage;
use crate::models::player_states::LobbyState;
use crate::models::COUNTDOWN_SECONDS;

verus! {

/// What a message from a client did.
#[derive(Clone, Copy, Debug, PartialEq, Eq, Structural)]
pub enum MessageEffect {
    /// A round was requested while the lobby was waiting: the players are
    /// placed and the countdown has begun. The session now drives it.
    CountdownStarted,
    /// The sender's steering intent was set.
    SteeringApplied,
    /// The sender is not registered any more; nothing changed.
    UnknownPlayer,
    /// The message asks nothing of the server in this phase; nothing changed.
    Ignored,
}

/// What the session that drives a countdown does next.
#[derive(Clone, Copy, Debug, PartialEq, Eq, Structural)]
pub enum CountdownStep {
    /// Wait one second and count down again.
    Wait,
    /// The countdown stands at zero: launch the round now.
    Launch,
    /// No countdown is in progress: stop driving.
    Stop,
}

/// What a connection has delivered.
pub enum Inbound {
    /// A frame that holds a message.
    Message(NetworkMessage),
    /// A frame that does not hold a message.
    Unreadable,
    /// The peer has closed the connection.
    Closed,
    /// The transport has failed.
    Failed,
}

/// What a session does after it has handled what was delivered.
#[derive(Clone, Copy, Debug, PartialEq, Eq, Structural)]
pub enum SessionStep {
    /// Go on receiving; the payload says what the frame did.
    Listen(MessageEffect),
    /// The player has been removed: tell the others and end the session.
    Left,
}

impl CountdownStep {
    /// What follows once one second has been taken off a lobby in phase
    /// `before`.
    pub open spec fn following(before: LobbyState) -> CountdownStep {
        match before {
            LobbyState::Countdown(k) => if k > 1 {
                CountdownStep::Wait
            } else {
                CountdownStep::Launch
            },
            _ => CountdownStep::Stop,
        }
    }
}

impl<S> GameModel<S> {
    /// Whether this is what a start request makes of `before`: from a
    /// waiting lobby, the players placed for a new round and the countdown
    /// at its full length; from any other phase, no change.
    pub open spec fn is_start_of(self, before: GameModel<S>) -> bool {
        if before.lobby_state is Waiting {
            &&& self.lobby_state == LobbyState::Countdown(COUNTDOWN_SECONDS)
            &&& self.is_round_start_of(before)
        } else {
            self == before
        }
    }

    /// What the message of the client registered as `id` makes of `before`,
    /// and what is reported of it.
    pub open spec fn is_reply_to(
        self,
        before: GameModel<S>,
        id: Seq<char>,
        message: NetworkMessage,
        effect: MessageEffect,
    ) -> bool {
        match message {
            NetworkMessage::RequestStart => {
                &&& self.is_start_of(before)
                &&& effect == if before.lobby_state is Waiting {
                    MessageEffect::CountdownStarted
                } else {
                    MessageEffect::Ignored
                }
            },
            NetworkMessage::PlayerUpdate(update) => {
                &&& self == before.with_steering(id, update.current_direction)
                &&& effect == if before.has_player(id) {
                    MessageEffect::SteeringApplied
                } else {
                    MessageEffect::UnknownPlayer
                }
            },
            _ => self == before && effect == MessageEffect::Ignored,
        }
    }
}

impl<S> GameState<S> {
    /// Handles a start request: a waiting lobby has its players placed for a
    /// new round and begins to count down. In any other phase the request
    /// does nothing. Says whether a countdown has begun.
    pub fn request_start(&mut self) -> (started: bool)
        ensures
            final(self)@.is_start_of(old(self)@),
            started == (old(self).lobby_state is Waiting),
            final(self).lobby_state == old(self).lobby_state.after_start_request(),
            final(self)@.player_ids() == old(self)@.player_ids(),
            old(self)@.consistent() ==> final(self)@.consistent(),
    {
        match self.lobby_state {
            LobbyState::Waiting => {
                self.init_game();
                self.lobby_state = self.lobby_state.request_start();
                true
            },
            _ => false,
        }
    }

    /// Takes one second off a countdown and says what the session that
    /// drives it does next. Outside a countdown nothing changes.
    pub fn advance_countdown(&mut self) -> (step: CountdownStep)
        ensures
            final(self)@ == (GameModel {
                lobby_state: old(self).lobby_state.after_second(),
                ..old(self)@
            }),
            step == CountdownStep::following(old(self).lobby_state),
    {
        let before = self.lobby_state;
        self.lobby_state = before.count_down();
        match before {
            LobbyState::Countdown(k) => if k > 1 {
                CountdownStep::Wait
            } else {
                CountdownStep::Launch
            },
            _ => CountdownStep::Stop,
        }
    }

    /// Starts the round if the countdown stands at zero, and says whether
    /// it did. In any other phase nothing changes.
    pub fn launch(&mut self) -> (launched: bool)
        ensures
            final(self)@ == (GameModel {
                lobby_state: old(self).lobby_state.after_launch(),
                ..old(self)@
            }),
            launched == (old(self).lobby_state == LobbyState::Countdown(0)),
    {
        let before = self.lobby_state;
        self.lobby_state = before.launch();
        match before {
            LobbyState::Countdown(k) => k == 0,
            _ => false,
        }
    }

    /// Handles a message that the client registered as `uuid` has sent. A
    /// start request goes to `request_start`; a steering update sets the
    /// intent of the sender's own player and of nobody else; the messages
    /// that only a server sends are ignored.
    pub fn handle_message(&mut self, uuid: &str, message: &NetworkMessage) -> (effect:
        MessageEffect)
        ensures
            final(self)@.is_reply_to(old(self)@, uuid@, *message, effect),
            old(self)@.consistent() ==> final(self)@.consistent(),
    {
        match message {
            NetworkMessage::RequestStart => {
                if self.request_start() {
                    MessageEffect::CountdownStarted
                } else {
                    MessageEffect::Ignored
                }
            },
            NetworkMessage::PlayerUpdate(update) => {
                if self.update_player(uuid, update.current_direction) {
                    MessageEffect::SteeringApplied
                } else {
                    MessageEffect::UnknownPlayer
                }
            },
            _ => MessageEffect::Ignored,
        }
    }

    /// Handles what the connection of the client registered as `uuid` has
    /// delivered. A message is handled and the session listens on; a frame
    /// without a message is dropped and the session listens on; when the
    /// connection is closed or has failed, the player is removed and the
    /// session ends.
    pub fn handle_inbound(&mut self, uuid: &str, inbound: &Inbound) -> (step: SessionStep)
        ensures
            match *inbound {
                Inbound::Message(message) => {
                    &&& step matches SessionStep::Listen(effect)
                    &&& final(self)@.is_reply_to(old(self)@, uuid@, message, effect)
                },
                Inbound::Unreadable => {
                    &&& step == SessionStep::Listen(MessageEffect::Ignored)
                    &&& final(self)@ == old(self)@
                },
                Inbound::Closed | Inbound::Failed => {
                    &&& step == SessionStep::Left
                    &&& final(self)@ == old(self)@.without(uuid@)
                },
            },
            old(self)@.consistent() ==> final(self)@.consistent(),
    {
        match inbound {
            Inbound::Message(message) => SessionStep::Listen(self.handle_message(uuid, message)),
            Inbound::Unreadable => SessionStep::Listen(MessageEffect::Ignored),
            Inbound::Closed => {
                self.disconnecting_player(uuid);
                SessionStep::Left
            },
            Inbound::Failed => {
                self.disconnecting_player(uuid);
                SessionStep::Left
            },
        }
    }
}

} // verus!
