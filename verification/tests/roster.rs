use light_trail::game_state::GameState;
use light_trail::models::direction::Direction;
use light_trail::models::player_states::LobbyState;

fn player_ids(state: &GameState<u32>) -> Vec<String> {
    state.players.iter().map(|p| p.id.clone()).collect()
}

fn socket_ids(state: &GameState<u32>) -> Vec<String> {
    state.player_write_sockets.iter().map(|e| e.0.clone()).collect()
}

#[test]
fn new_store_is_empty_and_waiting() {
    let state: GameState<u32> = GameState::new();
    assert!(state.players.is_empty());
    assert!(state.player_write_sockets.is_empty());
    assert_eq!(state.lobby_state, LobbyState::Waiting);
}

#[test]
fn connecting_player_adds_default_player_and_sink() {
    let mut state: GameState<u32> = GameState::new();
    let id = state.connecting_player(7);
    assert_eq!(state.players.len(), 1);
    let p = &state.players[0];
    assert_eq!(p.id, id);
    assert_eq!(p.position_x, 0);
    assert_eq!(p.position_y, 0);
    assert_eq!(p.direction, 0);
    assert!(p.is_alive);
    assert!(p.trail.is_empty());
    assert_eq!(p.current_direction, Direction::Straight);
    assert_eq!(state.player_write_sockets.len(), 1);
    assert_eq!(state.player_write_sockets[0].0, id);
    assert_eq!(state.player_write_sockets[0].1, 7);
    assert_eq!(state.lobby_state, LobbyState::Waiting);
}

#[test]
fn fresh_identifiers_are_hyphenated_and_distinct() {
    let mut state: GameState<u32> = GameState::new();
    let a = state.connecting_player(1);
    let b = state.connecting_player(2);
    assert_ne!(a, b);
    assert_eq!(a.len(), 36);
    assert_eq!(b.len(), 36);
    assert_eq!(a.chars().filter(|c| *c == '-').count(), 4);
    assert_eq!(state.players.len(), 2);
}

#[test]
fn players_and_sinks_carry_the_same_identifiers() {
    let mut state: GameState<u32> = GameState::new();
    let a = state.connecting_player(1);
    let b = state.connecting_player(2);
    let c = state.connecting_player(3);
    assert_eq!(player_ids(&state), socket_ids(&state));
    assert_eq!(player_ids(&state), vec![a.clone(), b.clone(), c.clone()]);
    assert!(state.disconnecting_player(&b));
    assert_eq!(player_ids(&state), socket_ids(&state));
    assert_eq!(player_ids(&state), vec![a.clone(), c.clone()]);
    let d = state.connecting_player(4);
    assert!(state.disconnecting_player(&a));
    assert_eq!(player_ids(&state), socket_ids(&state));
    assert_eq!(player_ids(&state), vec![c, d]);
    let sinks: Vec<u32> = state.player_write_sockets.iter().map(|e| e.1).collect();
    assert_eq!(sinks, vec![3, 4]);
}

#[test]
fn disconnecting_an_unknown_player_changes_nothing() {
    let mut state: GameState<u32> = GameState::new();
    let a = state.connecting_player(1);
    assert!(!state.disconnecting_player("nobody"));
    assert_eq!(player_ids(&state), vec![a.clone()]);
    assert_eq!(socket_ids(&state), vec![a.clone()]);
    assert!(state.disconnecting_player(&a));
    assert!(!state.disconnecting_player(&a));
    assert!(state.players.is_empty());
    assert!(state.player_write_sockets.is_empty());
}

#[test]
fn register_as_replaces_an_earlier_registration() {
    let mut state: GameState<u32> = GameState::new();
    state.register_as("one".to_string(), 1);
    state.register_as("two".to_string(), 2);
    state.players[0].is_alive = false;
    state.players[0].position_x = 55;
    state.register_as("one".to_string(), 3);
    assert_eq!(player_ids(&state), vec!["two".to_string(), "one".to_string()]);
    assert_eq!(socket_ids(&state), vec!["two".to_string(), "one".to_string()]);
    assert_eq!(state.player_write_sockets[1].1, 3);
    assert!(state.players[1].is_alive);
    assert_eq!(state.players[1].position_x, 0);
}

#[test]
fn find_player_gives_the_first_index() {
    let mut state: GameState<u32> = GameState::new();
    state.register_as("a".to_string(), 1);
    state.register_as("b".to_string(), 2);
    assert_eq!(state.find_player(&"a".to_string()), Some(0));
    assert_eq!(state.find_player(&"b".to_string()), Some(1));
    assert_eq!(state.find_player(&"c".to_string()), None);
    assert_eq!(state.find_socket(&"b".to_string()), Some(1));
    assert_eq!(state.find_socket(&"c".to_string()), None);
}

#[test]
fn update_player_sets_only_the_named_player() {
    let mut state: GameState<u32> = GameState::new();
    state.register_as("a".to_string(), 1);
    state.register_as("b".to_string(), 2);
    assert!(state.update_player("b", Direction::Left));
    assert_eq!(state.players[0].current_direction, Direction::Straight);
    assert_eq!(state.players[1].current_direction, Direction::Left);
    assert!(!state.update_player("c", Direction::Right));
    assert_eq!(state.players[0].current_direction, Direction::Straight);
    assert_eq!(state.players[1].current_direction, Direction::Left);
}

#[test]
fn connection_info_messages_name_every_receiver() {
    let mut state: GameState<u32> = GameState::new();
    state.register_as("a".to_string(), 1);
    state.register_as("b".to_string(), 2);
    state.register_as("c".to_string(), 3);
    let messages = state.connection_info_messages();
    assert_eq!(messages.len(), 3);
    let ids: Vec<&str> = messages.iter().map(|m| m.player_id.as_str()).collect();
    assert_eq!(ids, vec!["a", "b", "c"]);
    assert!(messages.iter().all(|m| m.players_connected == 3));
    let empty: GameState<u32> = GameState::new();
    assert!(empty.connection_info_messages().is_empty());
}

#[test]
fn two_registrations_give_two_players_in_order() {
    let mut state: GameState<u32> = GameState::new();
    state.register_as("first".to_string(), 10);
    state.register_as("second".to_string(), 20);
    assert_eq!(player_ids(&state), vec!["first".to_string(), "second".to_string()]);
    assert_eq!(socket_ids(&state), vec!["first".to_string(), "second".to_string()]);
    assert!(state.players.iter().all(|p| p.is_alive));
    assert_eq!(state.player_write_sockets[0].1, 10);
    assert_eq!(state.player_write_sockets[1].1, 20);
    assert_eq!(state.lobby_state, LobbyState::Waiting);
}
