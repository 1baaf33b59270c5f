use light_trail::game_state::GameState;
use light_trail::models::direction::Direction;
use light_trail::models::network_message::{
    ConnectionInfoMessage, GameStateMessage, NetworkMessage, PlayerUpdateMessage,
};
use light_trail::models::player_states::LobbyState;
use light_trail::models::{QUARTER_TURN, SCALE};
use light_trail::session::{CountdownStep, Inbound, MessageEffect, SessionStep};

fn two_players() -> GameState<u32> {
    let mut state: GameState<u32> = GameState::new();
    state.register_as("a".to_string(), 1);
    state.register_as("b".to_string(), 2);
    state
}

fn steer(direction: Direction) -> NetworkMessage {
    NetworkMessage::PlayerUpdate(PlayerUpdateMessage { current_direction: direction })
}

#[test]
fn steering_update_reaches_the_senders_player_only() {
    let mut state = two_players();
    let effect = state.handle_message("b", &steer(Direction::Right));
    assert_eq!(effect, MessageEffect::SteeringApplied);
    assert_eq!(state.players[0].current_direction, Direction::Straight);
    assert_eq!(state.players[1].current_direction, Direction::Right);
    assert_eq!(state.lobby_state, LobbyState::Waiting);
}

#[test]
fn steering_update_of_a_player_that_left_is_dropped() {
    let mut state = two_players();
    assert!(state.disconnecting_player("a"));
    let effect = state.handle_message("a", &steer(Direction::Left));
    assert_eq!(effect, MessageEffect::UnknownPlayer);
    assert_eq!(state.players.len(), 1);
    assert_eq!(state.players[0].current_direction, Direction::Straight);
}

#[test]
fn start_request_counts_only_while_waiting() {
    let mut state = two_players();
    assert_eq!(
        state.handle_message("a", &NetworkMessage::RequestStart),
        MessageEffect::CountdownStarted
    );
    assert_eq!(state.lobby_state, LobbyState::Countdown(5));
    assert_eq!(state.handle_message("b", &NetworkMessage::RequestStart), MessageEffect::Ignored);
    assert_eq!(state.lobby_state, LobbyState::Countdown(5));
    state.lobby_state = LobbyState::Running;
    assert_eq!(state.handle_message("b", &NetworkMessage::RequestStart), MessageEffect::Ignored);
    assert_eq!(state.lobby_state, LobbyState::Running);
    state.lobby_state = LobbyState::Finished;
    assert_eq!(state.handle_message("b", &NetworkMessage::RequestStart), MessageEffect::Ignored);
    assert_eq!(state.lobby_state, LobbyState::Finished);
}

#[test]
fn messages_of_the_server_are_ignored() {
    let mut state = two_players();
    let info = NetworkMessage::ConnectionInfo(ConnectionInfoMessage {
        player_id: "a".to_string(),
        players_connected: 2,
    });
    assert_eq!(state.handle_message("a", &info), MessageEffect::Ignored);
    let shown = NetworkMessage::GameState(GameStateMessage {
        lobby_state: LobbyState::Running,
        player_states: Vec::new(),
    });
    assert_eq!(state.handle_message("a", &shown), MessageEffect::Ignored);
    assert_eq!(state.players.len(), 2);
    assert_eq!(state.lobby_state, LobbyState::Waiting);
}

#[test]
fn session_listens_on_after_frames_and_leaves_on_close() {
    let mut state = two_players();
    let step = state.handle_inbound("a", &Inbound::Message(steer(Direction::Left)));
    assert_eq!(step, SessionStep::Listen(MessageEffect::SteeringApplied));
    assert_eq!(state.players[0].current_direction, Direction::Left);
    let step = state.handle_inbound("a", &Inbound::Unreadable);
    assert_eq!(step, SessionStep::Listen(MessageEffect::Ignored));
    assert_eq!(state.players.len(), 2);
    let step = state.handle_inbound("a", &Inbound::Closed);
    assert_eq!(step, SessionStep::Left);
    assert_eq!(state.players.len(), 1);
    assert_eq!(state.players[0].id, "b");
    assert_eq!(state.player_write_sockets.len(), 1);
    assert_eq!(state.player_write_sockets[0].0, "b");
    let step = state.handle_inbound("b", &Inbound::Failed);
    assert_eq!(step, SessionStep::Left);
    assert!(state.players.is_empty());
    assert!(state.player_write_sockets.is_empty());
    let messages = state.connection_info_messages();
    assert!(messages.is_empty());
}

#[test]
fn snapshot_shows_lobby_and_players() {
    let mut state = two_players();
    state.players[1].position_x = 7;
    state.players[1].trail.push((7, 0));
    state.lobby_state = LobbyState::Running;
    match state.get_game_state_message() {
        NetworkMessage::GameState(shown) => {
            assert_eq!(shown.lobby_state, LobbyState::Running);
            assert_eq!(shown.player_states.len(), 2);
            assert_eq!(shown.player_states[0].id, "a");
            assert_eq!(shown.player_states[1].id, "b");
            assert_eq!(shown.player_states[1].position_x, 7);
            assert_eq!(shown.player_states[1].trail, vec![(7, 0)]);
        }
        _ => panic!("the snapshot is a game state message"),
    }
}

#[test]
fn round_ends_when_one_player_is_left() {
    let mut state = two_players();
    state.lobby_state = LobbyState::Running;
    state.players[0].position_y = 100 * SCALE;
    state.players[1].position_y = -100 * SCALE;
    state.next_step();
    assert_eq!(state.lobby_state, LobbyState::Running);
    assert_eq!(state.players[0].position_x, 20_000_000);
    state.players[1].position_x = 499 * SCALE;
    state.next_step();
    assert!(!state.players[1].is_alive);
    assert!(state.players[0].is_alive);
    assert_eq!(state.lobby_state, LobbyState::Finished);
    let x = state.players[0].position_x;
    state.next_step();
    assert_eq!(state.players[0].position_x, x);
    assert_eq!(state.lobby_state, LobbyState::Finished);
}

#[test]
fn next_step_does_nothing_outside_a_running_round() {
    let mut state = two_players();
    for phase in [LobbyState::Waiting, LobbyState::Countdown(0), LobbyState::Finished] {
        state.lobby_state = phase;
        state.next_step();
        assert_eq!(state.lobby_state, phase);
        assert_eq!(state.players[0].position_x, 0);
        assert!(state.players[0].trail.is_empty());
    }
}

#[test]
fn check_collision_sweeps_the_players() {
    let mut state = two_players();
    state.players[0].position_x = 500 * SCALE + 1;
    state.check_collision();
    assert!(!state.players[0].is_alive);
    assert!(state.players[1].is_alive);
    assert_eq!(state.lobby_state, LobbyState::Waiting);
}

#[test]
fn two_players_play_a_round_to_its_end() {
    let mut state: GameState<u32> = GameState::new();
    let runner = state.connecting_player(1);
    let crosser = state.connecting_player(2);
    assert_eq!(state.connection_info_messages().len(), 2);

    let step = state.handle_inbound(&runner, &Inbound::Message(NetworkMessage::RequestStart));
    assert_eq!(step, SessionStep::Listen(MessageEffect::CountdownStarted));
    assert_eq!(state.lobby_state, LobbyState::Countdown(5));
    let mut seconds = 0;
    loop {
        assert!(state.tick().is_some());
        seconds += 1;
        match state.advance_countdown() {
            CountdownStep::Wait => {}
            CountdownStep::Launch => break,
            CountdownStep::Stop => panic!("the countdown stopped early"),
        }
    }
    assert_eq!(seconds, 5);
    assert_eq!(state.lobby_state, LobbyState::Countdown(0));
    assert!(state.launch());
    assert_eq!(state.lobby_state, LobbyState::Running);

    state.players[0].respawn(0, 0, 0);
    state.players[1].respawn(20 * SCALE, -100 * SCALE, QUARTER_TURN);
    for _ in 0..12 {
        assert!(state.tick().is_some());
        assert!(state.players[0].is_alive);
        assert!(state.players[1].is_alive);
        assert_eq!(state.lobby_state, LobbyState::Running);
    }
    match state.tick() {
        Some(NetworkMessage::GameState(shown)) => {
            assert_eq!(shown.lobby_state, LobbyState::Finished);
            assert!(shown.player_states[0].is_alive);
            assert!(!shown.player_states[1].is_alive);
        }
        _ => panic!("a running round shows its state"),
    }
    assert!(state.players[0].is_alive);
    assert!(!state.players[1].is_alive);
    assert_eq!(state.players[1].id, crosser);
    assert_eq!(state.players[1].position_y, -100 * SCALE + 13 * 20_000_000);
    assert_eq!(state.lobby_state, LobbyState::Finished);
    assert!(state.tick().is_none());
    assert_eq!(state.players[0].trail.len(), 13);
}

#[test]
fn running_ticks_advance_a_straight_player_step_by_step() {
    let mut state = two_players();
    state.lobby_state = LobbyState::Running;
    state.players[0].respawn(-300 * SCALE, 100 * SCALE, 0);
    state.players[1].respawn(-300 * SCALE, -100 * SCALE, QUARTER_TURN);
    state.players[1].set_direction(Direction::Left);
    for k in 1..=30 {
        state.next_step();
        assert!(state.players[0].is_alive);
        assert_eq!(state.players[0].position_x, -300 * SCALE + k * 20_000_000);
        assert_eq!(state.players[0].position_y, 100 * SCALE);
        assert_eq!(state.players[0].direction, 0);
        assert_eq!(state.players[0].trail.len(), k as usize);
        assert_eq!(
            *state.players[0].trail.last().unwrap(),
            (state.players[0].position_x, state.players[0].position_y)
        );
    }
    assert_eq!(state.players[0].position_x, -100 * SCALE);
    assert_eq!(state.lobby_state, LobbyState::Running);
}
