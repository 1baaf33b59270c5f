use light_trail::game_state::GameState;
use light_trail::models::network_message::NetworkMessage;
use light_trail::models::player_states::LobbyState;
use light_trail::models::{
    COUNTDOWN_SECONDS, FULL_TURN, MILLIS_PER_TICK, SPAWN_MAX, SPAWN_MIN, TICKS_PER_SECOND,
};
use light_trail::models::direction::Direction;
use light_trail::session::CountdownStep;

#[test]
fn lobby_walks_through_every_phase() {
    let mut phase = LobbyState::Waiting;
    phase = phase.request_start();
    assert_eq!(phase, LobbyState::Countdown(5));
    for k in (0..5).rev() {
        phase = phase.count_down();
        assert_eq!(phase, LobbyState::Countdown(k));
    }
    assert_eq!(phase.count_down(), LobbyState::Countdown(0));
    phase = phase.launch();
    assert_eq!(phase, LobbyState::Running);
    assert_eq!(phase.conclude(2), LobbyState::Running);
    assert_eq!(phase.conclude(1), LobbyState::Finished);
    assert_eq!(phase.conclude(0), LobbyState::Finished);
}

#[test]
fn lobby_transitions_fire_only_from_their_phase() {
    for phase in [LobbyState::Countdown(3), LobbyState::Running, LobbyState::Finished] {
        assert_eq!(phase.request_start(), phase);
    }
    for phase in [LobbyState::Waiting, LobbyState::Running, LobbyState::Finished] {
        assert_eq!(phase.count_down(), phase);
        assert_eq!(phase.launch(), phase);
    }
    assert_eq!(LobbyState::Countdown(2).launch(), LobbyState::Countdown(2));
    for phase in [LobbyState::Waiting, LobbyState::Countdown(0), LobbyState::Finished] {
        assert_eq!(phase.conclude(0), phase);
    }
}

#[test]
fn should_update_only_while_counting_or_running() {
    assert!(!LobbyState::Waiting.should_update());
    assert!(LobbyState::Countdown(0).should_update());
    assert!(LobbyState::Countdown(5).should_update());
    assert!(LobbyState::Running.should_update());
    assert!(!LobbyState::Finished.should_update());
}

#[test]
fn timing_constants() {
    assert_eq!(TICKS_PER_SECOND, 30);
    assert_eq!(MILLIS_PER_TICK, 33);
    assert_eq!(COUNTDOWN_SECONDS, 5);
}

#[test]
fn init_game_places_every_player_in_the_spawn_area() {
    let mut state: GameState<u32> = GameState::new();
    let mut ids = Vec::new();
    for n in 0..64 {
        ids.push(state.connecting_player(n));
    }
    state.players[3].is_alive = false;
    state.players[3].trail.push((1, 2));
    state.players[3].current_direction = Direction::Left;
    for _ in 0..2 {
        state.init_game();
        assert_eq!(state.players.len(), 64);
        for (p, id) in state.players.iter().zip(ids.iter()) {
            assert_eq!(&p.id, id);
            assert!(SPAWN_MIN <= p.position_x && p.position_x < SPAWN_MAX);
            assert!(SPAWN_MIN <= p.position_y && p.position_y < SPAWN_MAX);
            assert!(0 <= p.direction && p.direction < FULL_TURN);
            assert!(p.is_alive);
            assert!(p.trail.is_empty());
            assert_eq!(p.current_direction, Direction::Straight);
        }
        assert_eq!(state.player_write_sockets.len(), 64);
        assert_eq!(state.lobby_state, LobbyState::Waiting);
    }
}

#[test]
fn init_game_draws_its_positions() {
    let mut state: GameState<u32> = GameState::new();
    for n in 0..64 {
        state.connecting_player(n);
    }
    state.init_game();
    assert!(state.players.iter().any(|p| p.position_x != SPAWN_MIN));
    assert!(state.players.iter().any(|p| p.position_y != SPAWN_MIN));
    assert!(state.players.iter().any(|p| p.direction != 0));
    let first = state.players[0].position_x;
    assert!(state.players.iter().any(|p| p.position_x != first));
}

#[test]
fn request_start_begins_the_countdown_once() {
    let mut state: GameState<u32> = GameState::new();
    state.register_as("a".to_string(), 1);
    state.players[0].trail.push((5, 5));
    assert!(state.request_start());
    assert_eq!(state.lobby_state, LobbyState::Countdown(5));
    assert!(state.players[0].trail.is_empty());
    let x = state.players[0].position_x;
    let y = state.players[0].position_y;
    assert!(!state.request_start());
    assert_eq!(state.lobby_state, LobbyState::Countdown(5));
    assert_eq!(state.players[0].position_x, x);
    assert_eq!(state.players[0].position_y, y);
}

#[test]
fn countdown_takes_five_seconds_and_then_launches() {
    let mut state: GameState<u32> = GameState::new();
    state.register_as("a".to_string(), 1);
    state.register_as("b".to_string(), 2);
    assert_eq!(state.advance_countdown(), CountdownStep::Stop);
    assert!(!state.launch());
    assert!(state.request_start());
    let mut seen = vec![state.lobby_state];
    let mut seconds = 0;
    loop {
        let step = state.advance_countdown();
        seconds += 1;
        seen.push(state.lobby_state);
        match step {
            CountdownStep::Wait => {}
            CountdownStep::Launch => {
                assert!(state.launch());
                break;
            }
            CountdownStep::Stop => panic!("the countdown stopped early"),
        }
    }
    assert_eq!(seconds, 5);
    assert_eq!(
        seen,
        vec![
            LobbyState::Countdown(5),
            LobbyState::Countdown(4),
            LobbyState::Countdown(3),
            LobbyState::Countdown(2),
            LobbyState::Countdown(1),
            LobbyState::Countdown(0),
        ]
    );
    assert_eq!(state.lobby_state, LobbyState::Running);
    assert_eq!(state.advance_countdown(), CountdownStep::Stop);
    assert_eq!(state.lobby_state, LobbyState::Running);
}

#[test]
fn countdown_does_not_go_below_zero() {
    let mut state: GameState<u32> = GameState::new();
    state.lobby_state = LobbyState::Countdown(0);
    assert_eq!(state.advance_countdown(), CountdownStep::Launch);
    assert_eq!(state.lobby_state, LobbyState::Countdown(0));
    state.lobby_state = LobbyState::Countdown(1);
    assert_eq!(state.advance_countdown(), CountdownStep::Launch);
    assert_eq!(state.lobby_state, LobbyState::Countdown(0));
    state.lobby_state = LobbyState::Countdown(2);
    assert_eq!(state.advance_countdown(), CountdownStep::Wait);
    assert_eq!(state.lobby_state, LobbyState::Countdown(1));
}

#[test]
fn tick_is_silent_while_waiting_or_finished() {
    let mut state: GameState<u32> = GameState::new();
    state.register_as("a".to_string(), 1);
    state.register_as("b".to_string(), 2);
    assert!(state.tick().is_none());
    assert!(state.players[0].trail.is_empty());
    state.lobby_state = LobbyState::Finished;
    assert!(state.tick().is_none());
    assert!(state.players[0].trail.is_empty());
    assert_eq!(state.lobby_state, LobbyState::Finished);
}

#[test]
fn tick_shows_the_countdown_without_moving_anybody() {
    let mut state: GameState<u32> = GameState::new();
    state.register_as("a".to_string(), 1);
    state.register_as("b".to_string(), 2);
    state.lobby_state = LobbyState::Countdown(3);
    match state.tick() {
        Some(NetworkMessage::GameState(shown)) => {
            assert_eq!(shown.lobby_state, LobbyState::Countdown(3));
            assert_eq!(shown.player_states.len(), 2);
            assert_eq!(shown.player_states[0].id, "a");
            assert_eq!(shown.player_states[1].id, "b");
            assert!(shown.player_states[0].trail.is_empty());
        }
        _ => panic!("a counting lobby shows its state"),
    }
    assert_eq!(state.lobby_state, LobbyState::Countdown(3));
    assert_eq!(state.players[0].position_x, 0);
}
