//! The game state store: the players, the lobby phase and the outbound sink
//! of every connection.

use vstd::prelude::*;

use crate::collision::{models_of, sweep, swept};
use crate::entropy::{fresh_player_id, random_between};
use crate::models::direction::Direction;
use crate::models::network_message::{ConnectionInfoMessage, GameStateMessage, NetworkMessage};
use crate::models::player_states::{LobbyState, PlayerModel, PlayerStates};
use crate::models::{FULL_TURN, SPAWN_MAX, SPAWN_MIN};
use crate::round::{after_tick, count_alive, living_players, tick_players};

verus! {

/// All the state of one server. `S` is the type of the sink on which
/// messages for one connection are handed over; the store keeps each sink
/// beside the identifier of its player and never looks inside.
pub struct GameState<S> {
    /// The players, in the order in which they joined.
    pub players: Vec<PlayerStates>,
    pub lobby_state: LobbyState,
    /// The outbound sink of every connection, under its player's identifier,
    /// in the order in which they joined.
    pub player_write_sockets: Vec<(String, S)>,
}

/// Mathematical value of a `GameState`.
pub struct GameModel<S> {
    pub players: Seq<PlayerModel>,
    pub lobby_state: LobbyState,
    pub sockets: Seq<(Seq<char>, S)>,
}

impl<S> View for GameState<S> {
    type V = GameModel<S>;

    open spec fn view(&self) -> GameModel<S> {
        GameModel {
            players: self.players@.map_values(|p: PlayerStates| p@),
            lobby_state: self.lobby_state,
            sockets: self.player_write_sockets@.map_values(|e: (String, S)| (e.0@, e.1)),
        }
    }
}

/// The identifiers of a sequence of players, in order.
pub open spec fn ids_of_players(players: Seq<PlayerModel>) -> Seq<Seq<char>> {
    players.map_values(|p: PlayerModel| p.id)
}

/// The identifiers of a sequence of sinks, in order.
pub open spec fn ids_of_sockets<S>(sockets: Seq<(Seq<char>, S)>) -> Seq<Seq<char>> {
    sockets.map_values(|e: (Seq<char>, S)| e.0)
}

/// `players` without the first player called `id`, if there is one.
pub open spec fn players_without(players: Seq<PlayerModel>, id: Seq<char>) -> Seq<PlayerModel> {
    match ids_of_players(players).index_of_first(id) {
        Some(i) => players.remove(i),
        None => players,
    }
}

/// `sockets` without the first sink kept under `id`, if there is one.
pub open spec fn sockets_without<S>(sockets: Seq<(Seq<char>, S)>, id: Seq<char>) -> Seq<
    (Seq<char>, S),
> {
    match ids_of_sockets(sockets).index_of_first(id) {
        Some(i) => sockets.remove(i),
        None => sockets,
    }
}

impl<S> GameModel<S> {
    /// The state of a server that nobody has joined yet.
    pub open spec fn empty() -> GameModel<S> {
        GameModel { players: Seq::empty(), lobby_state: LobbyState::Waiting, sockets: Seq::empty() }
    }

    /// The identifiers of the players, in the order in which they joined.
    pub open spec fn player_ids(self) -> Seq<Seq<char>> {
        ids_of_players(self.players)
    }

    /// The identifiers that the sinks are kept under, in order.
    pub open spec fn socket_ids(self) -> Seq<Seq<char>> {
        ids_of_sockets(self.sockets)
    }

    /// Whether a player called `id` is registered.
    pub open spec fn has_player(self, id: Seq<char>) -> bool {
        self.player_ids().contains(id)
    }

    /// The invariant of the store: players and sinks carry the same
    /// identifiers in the same order, and no identifier occurs twice.
    pub open spec fn consistent(self) -> bool {
        &&& self.player_ids() == self.socket_ids()
        &&& self.player_ids().no_duplicates()
    }

    /// The state after `id` has left: its player and its sink are gone.
    pub open spec fn without(self, id: Seq<char>) -> GameModel<S> {
        GameModel {
            players: players_without(self.players, id),
            sockets: sockets_without(self.sockets, id),
            ..self
        }
    }

    /// The state after a connection has joined as `id` with `sink`: a fresh
    /// player and the sink stand last, and whatever was registered as `id`
    /// before is gone.
    pub open spec fn with_player(self, id: Seq<char>, sink: S) -> GameModel<S> {
        GameModel {
            players: players_without(self.players, id).push(PlayerModel::fresh(id)),
            sockets: sockets_without(self.sockets, id).push((id, sink)),
            ..self
        }
    }

    /// The state after the collision sweep.
    pub open spec fn swept(self) -> GameModel<S> {
        GameModel { players: swept(self.players), ..self }
    }

    /// The state after one tick. A running round moves its players, sweeps
    /// them for collisions and is finished once at most one is left alive.
    /// In every other phase a tick changes nothing.
    pub open spec fn stepped(self) -> GameModel<S> {
        if self.lobby_state is Running {
            let players = after_tick(self.players);
            GameModel {
                players,
                lobby_state: self.lobby_state.after_tick(count_alive(players)),
                ..self
            }
        } else {
            self
        }
    }

    /// Whether this is `before` with every player placed for a new round:
    /// the same players in the same order, each somewhere in the spawn area.
    pub open spec fn is_round_start_of(self, before: GameModel<S>) -> bool {
        &&& self.sockets == before.sockets
        &&& self.players.len() == before.players.len()
        &&& forall|i: int|
            0 <= i < self.players.len() ==> (#[trigger] self.players[i]).is_spawn_of(
                before.players[i],
            )
    }

    /// Whether `message` is the snapshot of this state.
    pub open spec fn is_shown_by(self, message: NetworkMessage) -> bool {
        &&& message matches NetworkMessage::GameState(shown)
        &&& shown.lobby_state == self.lobby_state
        &&& models_of(shown.player_states@) == self.players
    }

    /// The number that a roster message gives for the connected players:
    /// the number of sinks, or `u32::MAX` if there are more.
    pub open spec fn connected_count(self) -> u32 {
        if self.sockets.len() > u32::MAX {
            u32::MAX
        } else {
            self.sockets.len() as u32
        }
    }

    /// The state after the first player called `id`, if there is one, has
    /// set its steering intent to `direction`.
    pub open spec fn with_steering(self, id: Seq<char>, direction: Direction) -> GameModel<S> {
        match self.player_ids().index_of_first(id) {
            Some(i) => GameModel {
                players: self.players.update(
                    i,
                    PlayerModel { current_direction: direction, ..self.players[i] },
                ),
                ..self
            },
            None => self,
        }
    }
}

/// If `id` stands at `i` and nowhere before, `i` is its first index.
proof fn lemma_first_index(ids: Seq<Seq<char>>, id: Seq<char>, i: int)
    requires
        0 <= i < ids.len(),
        ids[i] == id,
        forall|j: int| 0 <= j < i ==> ids[j] != id,
    ensures
        ids.index_of_first(id) == Some(i),
{
    ids.index_of_first_ensures(id);
    assert(ids.contains(id));
}

/// If `id` stands nowhere, it has no first index.
proof fn lemma_no_index(ids: Seq<Seq<char>>, id: Seq<char>)
    requires
        forall|j: int| 0 <= j < ids.len() ==> ids[j] != id,
    ensures
        ids.index_of_first(id) == None::<int>,
        !ids.contains(id),
{
    ids.index_of_first_ensures(id);
}

impl<S> GameState<S> {
    /// Creates the state of a server that nobody has joined yet.
    pub fn new() -> (state: Self)
        ensures
            state@ == GameModel::<S>::empty(),
            state@.consistent(),
    {
        let state = GameState {
            players: Vec::new(),
            lobby_state: LobbyState::Waiting,
            player_write_sockets: Vec::new(),
        };
        assert(state@.players =~= Seq::empty());
        assert(state@.sockets =~= Seq::empty());
        assert(state@.player_ids() =~= state@.socket_ids());
        state
    }

    /// The index of the first player called `id`.
    pub fn find_player(&self, id: &String) -> (found: Option<usize>)
        ensures
            found matches Some(i) ==> self@.player_ids().index_of_first(id@) == Some(i as int) && i
                < self.players@.len(),
            found is None ==> self@.player_ids().index_of_first(id@) == None::<int>,
    {
        let mut i: usize = 0;
        while i < self.players.len()
            invariant
                i <= self.players@.len(),
                forall|j: int| 0 <= j < i ==> self@.player_ids()[j] != id@,
            decreases self.players@.len() - i,
        {
            if self.players[i].id == *id {
                proof {
                    lemma_first_index(self@.player_ids(), id@, i as int);
                }
                return Some(i);
            }
            i = i + 1;
        }
        proof {
            lemma_no_index(self@.player_ids(), id@);
        }
        None
    }

    /// The index of the first sink kept under `id`.
    pub fn find_socket(&self, id: &String) -> (found: Option<usize>)
        ensures
            found matches Some(i) ==> self@.socket_ids().index_of_first(id@) == Some(i as int) && i
                < self.player_write_sockets@.len(),
            found is None ==> self@.socket_ids().index_of_first(id@) == None::<int>,
    {
        let mut i: usize = 0;
        while i < self.player_write_sockets.len()
            invariant
                i <= self.player_write_sockets@.len(),
                forall|j: int| 0 <= j < i ==> self@.socket_ids()[j] != id@,
            decreases self.player_write_sockets@.len() - i,
        {
            if self.player_write_sockets[i].0 == *id {
                proof {
                    lemma_first_index(self@.socket_ids(), id@, i as int);
                }
                return Some(i);
            }
            i = i + 1;
        }
        proof {
            lemma_no_index(self@.socket_ids(), id@);
        }
        None
    }

    /// Removes the player called `uuid` and its sink. Says whether there was
    /// such a player; if there was none, the players stay as they are.
    pub fn disconnecting_player(&mut self, uuid: &str) -> (found: bool)
        ensures
            final(self)@ == old(self)@.without(uuid@),
            found == old(self)@.has_player(uuid@),
            final(self)@.players.len() == old(self)@.players.len() - if found {
                1int
            } else {
                0int
            },
            !found ==> final(self)@.players == old(self)@.players,
            old(self)@.consistent() ==> final(self)@.consistent(),
    {
        let key = uuid.to_owned();
        let ghost before = self@;
        let at_player = self.find_player(&key);
        let at_socket = self.find_socket(&key);
        proof {
            before.player_ids().index_of_first_ensures(uuid@);
            if before.consistent() {
                lemma_without_keeps_consistent(before, uuid@);
            }
        }
        let found = match at_player {
            Some(i) => {
                self.players.remove(i);
                true
            },
            None => false,
        };
        match at_socket {
            Some(i) => {
                self.player_write_sockets.remove(i);
            },
            None => {},
        }
        assert(self@.players =~= players_without(before.players, uuid@));
        assert(self@.sockets =~= sockets_without(before.sockets, uuid@));
        found
    }

    /// Registers a connection under `id`: a fresh player and the sink are
    /// appended. Whatever was registered under `id` before is removed first,
    /// so that the identifier names the new connection only.
    pub fn register_as(&mut self, id: String, write_socket: S)
        ensures
            final(self)@ == old(self)@.with_player(id@, write_socket),
            old(self)@.consistent() ==> final(self)@.consistent(),
            final(self)@.has_player(id@),
            final(self)@.players.len() > 0 && final(self)@.players.last() == PlayerModel::fresh(
                id@,
            ),
            final(self)@.sockets.len() > 0 && final(self)@.sockets.last() == (id@, write_socket),
            !old(self)@.has_player(id@) ==> final(self)@.players == old(self)@.players.push(
                PlayerModel::fresh(id@),
            ),
    {
        let ghost before = self@;
        self.disconnecting_player(id.as_str());
        let ghost between = self@;
        let new_player = PlayerStates::new(id.as_str());
        self.players.push(new_player);
        self.player_write_sockets.push((id, write_socket));
        assert(self@.players =~= between.players.push(PlayerModel::fresh(id@)));
        assert(self@.sockets =~= between.sockets.push((id@, write_socket)));
        proof {
            if before.consistent() {
                lemma_with_player_keeps_consistent(before, id@, write_socket);
            }
            let ids = self@.player_ids();
            assert(ids[ids.len() - 1] == id@);
        }
    }

    /// Registers a new connection under a freshly drawn identifier and
    /// returns the identifier.
    pub fn connecting_player(&mut self, write_socket: S) -> (uuid: String)
        ensures
            final(self)@ == old(self)@.with_player(uuid@, write_socket),
            old(self)@.consistent() ==> final(self)@.consistent(),
            final(self)@.has_player(uuid@),
            final(self)@.players.len() > 0 && final(self)@.players.last() == PlayerModel::fresh(
                uuid@,
            ),
            final(self)@.sockets.len() > 0 && final(self)@.sockets.last() == (uuid@, write_socket),
            !old(self)@.has_player(uuid@) ==> final(self)@.players == old(self)@.players.push(
                PlayerModel::fresh(uuid@),
            ),
    {
        let uuid = fresh_player_id();
        self.register_as(uuid.clone(), write_socket);
        uuid
    }

    /// Sets the steering intent of the player called `player_id`. Says
    /// whether there was such a player; if there was none, nothing changes.
    pub fn update_player(&mut self, player_id: &str, direction: Direction) -> (found: bool)
        ensures
            final(self)@ == old(self)@.with_steering(player_id@, direction),
            found == old(self)@.has_player(player_id@),
            old(self)@.consistent() ==> final(self)@.consistent(),
    {
        let key = player_id.to_owned();
        let ghost before = self@;
        proof {
            before.player_ids().index_of_first_ensures(player_id@);
        }
        match self.find_player(&key) {
            Some(i) => {
                self.players[i].set_direction(direction);
                assert(self@.players =~= before.players.update(
                    i as int,
                    PlayerModel { current_direction: direction, ..before.players[i as int] },
                ));
                assert(self@.sockets =~= before.sockets);
                assert(self@.player_ids() =~= before.player_ids());
                true
            },
            None => false,
        }
    }
}

/// Leaving keeps the store consistent.
pub proof fn lemma_without_keeps_consistent<S>(state: GameModel<S>, id: Seq<char>)
    requires
        state.consistent(),
    ensures
        state.without(id).consistent(),
        !state.without(id).has_player(id),
{
    let ids = state.player_ids();
    ids.index_of_first_ensures(id);
    let after = state.without(id);
    match ids.index_of_first(id) {
        Some(i) => {
            assert(after.player_ids() =~= ids.remove(i));
            assert(after.socket_ids() =~= ids.remove(i));
            assert forall|a: int, b: int|
                0 <= a < ids.remove(i).len() && 0 <= b < ids.remove(i).len() && a != b implies ids.remove(
                i,
            )[a] != ids.remove(i)[b] by {
                let a0 = if a < i { a } else { a + 1 };
                let b0 = if b < i { b } else { b + 1 };
                assert(ids[a0] != ids[b0]);
            }
            assert forall|a: int| 0 <= a < ids.remove(i).len() implies ids.remove(i)[a] != id by {
                let a0 = if a < i { a } else { a + 1 };
                assert(ids[a0] != ids[i]);
            }
        },
        None => {
            assert(after.player_ids() =~= ids);
            assert(after.socket_ids() =~= ids);
        },
    }
}

/// Joining keeps the store consistent.
pub proof fn lemma_with_player_keeps_consistent<S>(state: GameModel<S>, id: Seq<char>, sink: S)
    requires
        state.consistent(),
    ensures
        state.with_player(id, sink).consistent(),
{
    lemma_without_keeps_consistent(state, id);
    let mid = state.without(id);
    let after = state.with_player(id, sink);
    assert(after.player_ids() =~= mid.player_ids().push(id));
    assert(after.socket_ids() =~= mid.socket_ids().push(id));
    let ids = mid.player_ids();
    assert forall|a: int, b: int|
        0 <= a < ids.push(id).len() && 0 <= b < ids.push(id).len() && a != b implies ids.push(
        id,
    )[a] != ids.push(id)[b] by {
        if a < ids.len() && b < ids.len() {
            assert(ids[a] != ids[b]);
        } else if a < ids.len() {
            assert(ids.contains(ids[a]));
        } else {
            assert(ids.contains(ids[b]));
        }
    }
}

impl<S> GameState<S> {
    /// Places every player for a new round: at a random position of the
    /// spawn area, with a random heading, alive, steering straight, without
    /// a trail. Who is registered does not change.
    pub fn init_game(&mut self)
        ensures
            final(self)@.is_round_start_of(old(self)@),
            final(self).lobby_state == old(self).lobby_state,
            final(self)@.player_ids() == old(self)@.player_ids(),
            old(self)@.consistent() ==> final(self)@.consistent(),
    {
        let ghost before = self@;
        let n = self.players.len();
        let mut i: usize = 0;
        while i < n
            invariant
                i <= n,
                n == self.players@.len(),
                before.players.len() == n,
                self.lobby_state == before.lobby_state,
                self.player_write_sockets == old(self).player_write_sockets,
                forall|h: int|
                    0 <= h < i ==> (#[trigger] self@.players[h]).is_spawn_of(before.players[h]),
                forall|h: int| i <= h < n ==> (#[trigger] self@.players[h]) == before.players[h],
            decreases n - i,
        {
            let ghost prior = self@.players;
            assert(prior[i as int] == self.players@[i as int]@);
            let x = random_between(SPAWN_MIN, SPAWN_MAX);
            let y = random_between(SPAWN_MIN, SPAWN_MAX);
            let heading = random_between(0, FULL_TURN);
            self.players[i].respawn(x, y, heading);
            assert forall|h: int| 0 <= h < n && h != i implies (#[trigger] self@.players[h])
                == prior[h] by {
                assert(self@.players[h] == self.players@[h]@);
            }
            assert(self@.players[i as int] == self.players@[i as int]@);
            i = i + 1;
        }
        assert(self@.sockets == before.sockets);
        assert(self@.player_ids() =~= before.player_ids());
    }

    /// Runs the collision sweep over the players as they stand.
    pub fn check_collision(&mut self)
        ensures
            final(self)@ == old(self)@.swept(),
    {
        sweep(&mut self.players);
    }

    /// Advances the game by one tick.
    pub fn next_step(&mut self)
        ensures
            final(self)@ == old(self)@.stepped(),
            final(self)@.player_ids() == old(self)@.player_ids(),
            old(self)@.consistent() ==> final(self)@.consistent(),
    {
        let ghost before = self@;
        match self.lobby_state {
            LobbyState::Running => {
                tick_players(&mut self.players);
                let alive_players_count = living_players(&self.players);
                self.lobby_state = self.lobby_state.conclude(alive_players_count);
                proof {
                    lemma_tick_keeps_ids(before.players);
                }
            },
            _ => {},
        }
    }

    /// The snapshot of the state as it stands, for every client.
    pub fn get_game_state_message(&self) -> (message: NetworkMessage)
        ensures
            self@.is_shown_by(message),
    {
        let mut player_states: Vec<PlayerStates> = Vec::new();
        let mut i: usize = 0;
        while i < self.players.len()
            invariant
                i <= self.players@.len(),
                player_states@.len() == i,
                models_of(player_states@) == self@.players.take(i as int),
            decreases self.players@.len() - i,
        {
            let ghost shown = models_of(player_states@);
            let ghost held = player_states@;
            let copy = self.players[i].clone();
            assert(copy@ == self@.players[i as int]);
            player_states.push(copy);
            assert forall|h: int| 0 <= h < i + 1 implies models_of(player_states@)[h]
                == self@.players.take(i + 1)[h] by {
                if h < i {
                    assert(player_states@[h] == held[h]);
                    assert(shown[h] == held[h]@);
                }
            }
            assert(models_of(player_states@) =~= self@.players.take(i + 1));
            i = i + 1;
        }
        assert(self@.players.take(self.players@.len() as int) =~= self@.players);
        NetworkMessage::GameState(
            GameStateMessage { lobby_state: self.lobby_state, player_states },
        )
    }

    /// What the tick loop does on every tick: while a round counts down or
    /// runs, the state is advanced by one tick and its snapshot is handed
    /// back for sending; in the other phases nothing happens.
    pub fn tick(&mut self) -> (snapshot: Option<NetworkMessage>)
        ensures
            final(self)@ == old(self)@.stepped(),
            old(self)@.consistent() ==> final(self)@.consistent(),
            snapshot is Some == old(self).lobby_state.is_active(),
            snapshot matches Some(message) ==> final(self)@.is_shown_by(message),
    {
        if self.lobby_state.should_update() {
            self.next_step();
            Some(self.get_game_state_message())
        } else {
            None
        }
    }

    /// The roster messages that go out when somebody has joined or left: one
    /// for every sink, in the order of the sinks, each with the identifier of
    /// its receiver and the number of connections.
    pub fn connection_info_messages(&self) -> (messages: Vec<ConnectionInfoMessage>)
        ensures
            messages@.len() == self@.sockets.len(),
            forall|i: int|
                0 <= i < messages@.len() ==> (#[trigger] messages@[i]).player_id@
                    == self@.sockets[i].0 && messages@[i].players_connected
                    == self@.connected_count(),
    {
        let n = self.player_write_sockets.len();
        let player_count: u32 = if n > u32::MAX as usize {
            u32::MAX
        } else {
            n as u32
        };
        let mut messages: Vec<ConnectionInfoMessage> = Vec::new();
        let mut i: usize = 0;
        while i < n
            invariant
                i <= n,
                n == self.player_write_sockets@.len(),
                player_count == self@.connected_count(),
                messages@.len() == i,
                forall|h: int|
                    0 <= h < i ==> (#[trigger] messages@[h]).player_id@ == self@.sockets[h].0
                        && messages@[h].players_connected == player_count,
            decreases n - i,
        {
            messages.push(
                ConnectionInfoMessage {
                    player_id: self.player_write_sockets[i].0.clone(),
                    players_connected: player_count,
                },
            );
            i = i + 1;
        }
        messages
    }
}

/// A tick neither adds nor removes a player, nor renames one.
pub proof fn lemma_tick_keeps_ids(players: Seq<PlayerModel>)
    ensures
        ids_of_players(after_tick(players)) == ids_of_players(players),
{
    assert(ids_of_players(after_tick(players)) =~= ids_of_players(players)) by {
        assert forall|i: int| 0 <= i < players.len() implies ids_of_players(after_tick(players))[i]
            == ids_of_players(players)[i] by {
            let p = players[i];
            assert(p.advanced().id == p.id);
        }
    }
}

} // verus!
